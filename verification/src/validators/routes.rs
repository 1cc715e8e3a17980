//! Routes: a mode outside the main specification, a missing agency.
use vstd::prelude::*;
use vstd::string::StringExecFns;
use crate::collect::{collect, extend, gather, one, shown, views};
use crate::issues::{Described, Issue, IssueType, IssueView, Severity};
use crate::model::{Gtfs, Route, RouteType};
use crate::text::{signed_decimal, str_to_string, write_signed_decimal};

verus! {

/// The code of the route's mode where it is outside the main specification.
pub open spec fn non_standard_route_type(route: Route) -> Option<i16> {
    match route.route_type {
        RouteType::Other(rt) => Some(rt),
        _ => None,
    }
}

/// The issue on a route whose mode is outside the main specification.
pub open spec fn invalid_route_type(route: Route) -> Option<IssueView> {
    match non_standard_route_type(route) {
        Some(rt) => Some(
            IssueView::about(Severity::Information, IssueType::InvalidRouteType, route.described()).with_details(
                "The route type '"@ + signed_decimal(rt as int) + "' is not part of the main GTFS specification"@,
            ),
        ),
        None => None,
    }
}

/// The issue on a route that names no agency.
pub open spec fn missing_agency_id(route: Route) -> Option<IssueView> {
    if route.agency_id is None {
        Some(
            IssueView::about(Severity::Error, IssueType::MissingAgencyId, route.described()).with_details(
                "The agency ID must be filled for route '"@ + route.id@ + "'"@,
            ),
        )
    } else {
        None
    }
}

pub open spec fn invalid_route_type_of() -> spec_fn(Route) -> Seq<IssueView> {
    |r: Route| one(invalid_route_type(r))
}

pub open spec fn missing_agency_id_of() -> spec_fn(Route) -> Seq<IssueView> {
    |r: Route| one(missing_agency_id(r))
}

/// The issues on routes: the modes outside the main specification route
/// by route; then, where the feed has more than one agency, the routes
/// that name none.
pub open spec fn route_issues(gtfs: Gtfs) -> Seq<IssueView> {
    gather(gtfs.routes@, invalid_route_type_of()) + if gtfs.agencies@.len() > 1 {
        gather(gtfs.routes@, missing_agency_id_of())
    } else {
        Seq::empty()
    }
}

/// The code of the route's mode where it is outside the main specification.
pub fn get_non_standard_route_type(route: &Route) -> (r: Option<i16>)
    ensures
        r == non_standard_route_type(*route),
{
    match route.route_type {
        RouteType::Other(rt) => Some(rt),
        _ => None,
    }
}

fn check_route_type(route: &Route) -> (r: Option<Issue>)
    ensures
        shown(r) == invalid_route_type(*route),
{
    match get_non_standard_route_type(route) {
        Some(rt) => {
            let mut d = str_to_string("The route type '");
            let n = write_signed_decimal(rt as i64);
            d.append(n.as_str());
            d.append("' is not part of the main GTFS specification");
            Some(Issue::new_with_obj(Severity::Information, IssueType::InvalidRouteType, route).details(d.as_str()))
        },
        None => None,
    }
}

fn check_agency_id(route: &Route) -> (r: Option<Issue>)
    ensures
        shown(r) == missing_agency_id(*route),
{
    if route.agency_id.is_none() {
        let mut d = str_to_string("The agency ID must be filled for route '");
        d.append(route.id.as_str());
        d.append("'");
        Some(Issue::new_with_obj(Severity::Error, IssueType::MissingAgencyId, route).details(d.as_str()))
    } else {
        None
    }
}

/// The issues on routes.
pub fn validate(gtfs: &Gtfs) -> (r: Vec<Issue>)
    ensures
        views(r@) == route_issues(*gtfs),
{
    let mut out = collect(&gtfs.routes, check_route_type, Ghost(invalid_route_type_of()));
    if gtfs.agencies.len() > 1 {
        let missing = collect(&gtfs.routes, check_agency_id, Ghost(missing_agency_id_of()));
        extend(&mut out, missing);
    } else {
        assert(views(out@) + Seq::<IssueView>::empty() =~= views(out@));
    }
    out
}

} // verus!
