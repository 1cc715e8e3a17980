//! Objects whose id is empty or not in ASCII.
use vstd::prelude::*;
use crate::collect::{collect, extend, gather, one, shown, views};
use crate::issues::{Described, Issue, IssueType, IssueView, ObjectType, RelatedObjectView, Severity};
use crate::model::{Agency, Calendar, Gtfs, Route, ShapeLine, Stop, Trip};

verus! {

/// The issue on an object by its id: a warning where the id is not in
/// ASCII, an error where it is empty.
pub open spec fn id_issue(o: RelatedObjectView) -> Option<IssueView> {
    if !vstd::utf8::is_ascii_chars(o.id) {
        Some(IssueView::about(Severity::Warning, IssueType::IdNotAscii, o))
    } else if o.id.len() == 0 {
        Some(IssueView::about(Severity::Error, IssueType::MissingId, o))
    } else {
        None
    }
}

/// The issue on a shape with an empty id.
pub open spec fn shape_id_issue(shape: ShapeLine) -> Option<IssueView> {
    if shape.id@.len() == 0 {
        Some(
            IssueView::bare(Severity::Error, IssueType::MissingId, Seq::empty()).with_object_type(ObjectType::Shape),
        )
    } else {
        None
    }
}

pub open spec fn route_id_of() -> spec_fn(Route) -> Seq<IssueView> {
    |o: Route| one(id_issue(o.described()))
}

pub open spec fn trip_id_of() -> spec_fn(Trip) -> Seq<IssueView> {
    |o: Trip| one(id_issue(o.described()))
}

pub open spec fn calendar_id_of() -> spec_fn(Calendar) -> Seq<IssueView> {
    |o: Calendar| one(id_issue(o.described()))
}

pub open spec fn stop_id_of() -> spec_fn(Stop) -> Seq<IssueView> {
    |o: Stop| one(id_issue(o.described()))
}

pub open spec fn agency_id_of() -> spec_fn(Agency) -> Seq<IssueView> {
    |o: Agency| one(id_issue(o.described()))
}

pub open spec fn shape_id_of() -> spec_fn(ShapeLine) -> Seq<IssueView> {
    |o: ShapeLine| one(shape_id_issue(o))
}

/// The issues on ids: where the feed has more than one agency, the
/// agencies first; then routes, trips, calendars, stops and shapes.
pub open spec fn id_issues(gtfs: Gtfs) -> Seq<IssueView> {
    (if gtfs.agencies@.len() > 1 {
        gather(gtfs.agencies@, agency_id_of())
    } else {
        Seq::empty()
    }) + gather(gtfs.routes@, route_id_of()) + gather(gtfs.trips@, trip_id_of()) + gather(
        gtfs.calendar@,
        calendar_id_of(),
    ) + gather(gtfs.stops@, stop_id_of()) + gather(gtfs.shapes@, shape_id_of())
}

/// The issue on an object by its id.
pub fn valid_id<T: Described>(o: &T) -> (r: Option<Issue>)
    ensures
        shown(r) == id_issue(o.described()),
{
    let d = o.describe();
    if !d.id.as_str().is_ascii() {
        Some(Issue::new_with_obj(Severity::Warning, IssueType::IdNotAscii, o))
    } else if d.id.as_str().is_empty() {
        Some(Issue::new_with_obj(Severity::Error, IssueType::MissingId, o))
    } else {
        None
    }
}

fn check_shape(shape: &ShapeLine) -> (r: Option<Issue>)
    ensures
        shown(r) == shape_id_issue(*shape),
{
    if shape.id.as_str().is_empty() {
        let empty = String::new();
        Some(Issue::new(Severity::Error, IssueType::MissingId, empty.as_str()).object_type(ObjectType::Shape))
    } else {
        None
    }
}

/// The issues on ids.
pub fn validate(gtfs: &Gtfs) -> (r: Vec<Issue>)
    ensures
        views(r@) == id_issues(*gtfs),
{
    let mut out: Vec<Issue> = if gtfs.agencies.len() > 1 {
        collect(&gtfs.agencies, valid_id::<Agency>, Ghost(agency_id_of()))
    } else {
        proof {
            crate::collect::lemma_views_empty();
        }
        Vec::new()
    };
    extend(&mut out, collect(&gtfs.routes, valid_id::<Route>, Ghost(route_id_of())));
    extend(&mut out, collect(&gtfs.trips, valid_id::<Trip>, Ghost(trip_id_of())));
    extend(&mut out, collect(&gtfs.calendar, valid_id::<Calendar>, Ghost(calendar_id_of())));
    extend(&mut out, collect(&gtfs.stops, valid_id::<Stop>, Ghost(stop_id_of())));
    extend(&mut out, collect(&gtfs.shapes, check_shape, Ghost(shape_id_of())));
    out
}

} // verus!
