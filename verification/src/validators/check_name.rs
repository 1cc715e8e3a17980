//! Objects without a name.
use vstd::prelude::*;
use crate::collect::{collect, extend, gather, one, shown, views};
use crate::issues::{Described, Issue, IssueType, IssueView, RelatedObjectView, Severity};
use crate::model::{Agency, FeedInfo, Gtfs, LocationType, Route, Stop};

verus! {

/// Whether the name shown for an object is empty, or there is none.
pub open spec fn name_is_empty(o: RelatedObjectView) -> bool {
    match o.name {
        Some(n) => n.len() == 0,
        None => true,
    }
}

/// Whether an optional text is absent or empty.
pub open spec fn blank(o: Option<String>) -> bool {
    match o {
        Some(s) => s@.len() == 0,
        None => true,
    }
}

/// Whether a stop of this kind must have a name.
pub open spec fn name_required(t: LocationType) -> bool {
    t == LocationType::StopPoint || t == LocationType::StopArea || t == LocationType::StationEntrance
}

/// The issue on a route whose short name and long name are both empty.
pub open spec fn unnamed_route(route: Route) -> Option<IssueView> {
    if blank(route.short_name) && blank(route.long_name) {
        Some(IssueView::about(Severity::Error, IssueType::MissingName, route.described()))
    } else {
        None
    }
}

/// The issue on a stop that must have a name and has an empty one.
pub open spec fn unnamed_stop(stop: Stop) -> Option<IssueView> {
    if name_required(stop.location_type) && name_is_empty(stop.described()) {
        Some(IssueView::about(Severity::Error, IssueType::MissingName, stop.described()))
    } else {
        None
    }
}

/// The issue on an agency with an empty name.
pub open spec fn unnamed_agency(agency: Agency) -> Option<IssueView> {
    if name_is_empty(agency.described()) {
        Some(IssueView::about(Severity::Error, IssueType::MissingName, agency.described()))
    } else {
        None
    }
}

/// The issue on a feed info with an empty publisher name.
pub open spec fn unnamed_feed_info(feed: FeedInfo) -> Option<IssueView> {
    if feed.name@.len() == 0 {
        Some(IssueView::bare(Severity::Error, IssueType::MissingName, Seq::empty()))
    } else {
        None
    }
}

pub open spec fn unnamed_route_of() -> spec_fn(Route) -> Seq<IssueView> {
    |r: Route| one(unnamed_route(r))
}

pub open spec fn unnamed_stop_of() -> spec_fn(Stop) -> Seq<IssueView> {
    |s: Stop| one(unnamed_stop(s))
}

pub open spec fn unnamed_agency_of() -> spec_fn(Agency) -> Seq<IssueView> {
    |a: Agency| one(unnamed_agency(a))
}

pub open spec fn unnamed_feed_info_of() -> spec_fn(FeedInfo) -> Seq<IssueView> {
    |f: FeedInfo| one(unnamed_feed_info(f))
}

/// The issues on missing names: routes, then stops, then agencies, then
/// feed infos.
pub open spec fn name_issues(gtfs: Gtfs) -> Seq<IssueView> {
    gather(gtfs.routes@, unnamed_route_of()) + gather(gtfs.stops@, unnamed_stop_of()) + gather(
        gtfs.agencies@,
        unnamed_agency_of(),
    ) + gather(gtfs.feed_info@, unnamed_feed_info_of())
}

/// Whether the name shown for an object is empty, or there is none.
pub fn empty_name<T: Described>(o: &T) -> (r: bool)
    ensures
        r == name_is_empty(o.described()),
{
    let d = o.describe();
    match &d.name {
        Some(n) => n.as_str().is_empty(),
        None => true,
    }
}

fn make_missing_name_issue<T: Described>(o: &T) -> (r: Issue)
    ensures
        r@ == IssueView::about(Severity::Error, IssueType::MissingName, o.described()),
{
    Issue::new_with_obj(Severity::Error, IssueType::MissingName, o)
}

fn is_blank(o: &Option<String>) -> (r: bool)
    ensures
        r == blank(*o),
{
    match o {
        Some(s) => s.as_str().is_empty(),
        None => true,
    }
}

fn check_route(route: &Route) -> (r: Option<Issue>)
    ensures
        shown(r) == unnamed_route(*route),
{
    if is_blank(&route.short_name) && is_blank(&route.long_name) {
        Some(make_missing_name_issue(route))
    } else {
        None
    }
}

fn check_stop(stop: &Stop) -> (r: Option<Issue>)
    ensures
        shown(r) == unnamed_stop(*stop),
{
    let required = match stop.location_type {
        LocationType::StopPoint => true,
        LocationType::StopArea => true,
        LocationType::StationEntrance => true,
        _ => false,
    };
    if required && empty_name(stop) {
        Some(make_missing_name_issue(stop))
    } else {
        None
    }
}

fn check_agency(agency: &Agency) -> (r: Option<Issue>)
    ensures
        shown(r) == unnamed_agency(*agency),
{
    if empty_name(agency) {
        Some(make_missing_name_issue(agency))
    } else {
        None
    }
}

fn check_feed_info(feed: &FeedInfo) -> (r: Option<Issue>)
    ensures
        shown(r) == unnamed_feed_info(*feed),
{
    if feed.name.as_str().is_empty() {
        let empty = String::new();
        Some(Issue::new(Severity::Error, IssueType::MissingName, empty.as_str()))
    } else {
        None
    }
}

/// The issues on missing names.
pub fn validate(gtfs: &Gtfs) -> (r: Vec<Issue>)
    ensures
        views(r@) == name_issues(*gtfs),
{
    let mut out = collect(&gtfs.routes, check_route, Ghost(unnamed_route_of()));
    extend(&mut out, collect(&gtfs.stops, check_stop, Ghost(unnamed_stop_of())));
    extend(&mut out, collect(&gtfs.agencies, check_agency, Ghost(unnamed_agency_of())));
    extend(&mut out, collect(&gtfs.feed_info, check_feed_info, Ghost(unnamed_feed_info_of())));
    out
}

} // verus!
