//! Shapes: their points, and the trips that name them.
use vstd::prelude::*;
use vstd::string::StringExecFns;
use crate::collect::{collect, collect_with, extend, gather, one, shown, views};
use crate::issues::{Issue, IssueType, IssueView, ObjectType, Severity};
use crate::model::{Gtfs, Shape, ShapeLine, Trip};
use crate::text::str_to_string;
use crate::validators::stops::{MAX_LATITUDE, MAX_LONGITUDE};

verus! {

/// Whether a point has both coordinates: neither is zero.
pub open spec fn point_has_coord(p: Shape) -> bool {
    p.latitude != 0 && p.longitude != 0
}

/// Whether both coordinates of a point lie in their ranges.
pub open spec fn point_in_range(p: Shape) -> bool {
    -MAX_LONGITUDE <= p.longitude <= MAX_LONGITUDE && -MAX_LATITUDE <= p.latitude <= MAX_LATITUDE
}

/// An issue of this severity and category on the shape with this id.
pub open spec fn shape_issue(severity: Severity, issue_type: IssueType, id: Seq<char>) -> IssueView {
    IssueView::bare(severity, issue_type, id).with_object_type(ObjectType::Shape)
}

/// The issue on a shape with a point that lacks a coordinate.
pub open spec fn missing_coord(shape: ShapeLine) -> Option<IssueView> {
    if exists|k: int| 0 <= k < shape.points@.len() && !point_has_coord(#[trigger] shape.points@[k]) {
        Some(shape_issue(Severity::Warning, IssueType::MissingCoordinates, shape.id@))
    } else {
        None
    }
}

/// The issue on a shape with a point outside the ranges.
pub open spec fn invalid_coord(shape: ShapeLine) -> Option<IssueView> {
    if exists|k: int| 0 <= k < shape.points@.len() && !point_in_range(#[trigger] shape.points@[k]) {
        Some(shape_issue(Severity::Error, IssueType::InvalidCoordinates, shape.id@))
    } else {
        None
    }
}

/// Whether the model has a shape with this id.
pub open spec fn shape_exists(shapes: Seq<ShapeLine>, id: Seq<char>) -> bool {
    exists|k: int| 0 <= k < shapes.len() && (#[trigger] shapes[k]).id@ == id
}

/// Whether some trip follows the shape with this id.
pub open spec fn shape_used(trips: Seq<Trip>, id: Seq<char>) -> bool {
    exists|t: int| 0 <= t < trips.len() && (#[trigger] trips[t]).shape_id is Some && trips[t].shape_id.unwrap()@ == id
}

/// The issue on a trip that names a shape the model does not have.
pub open spec fn invalid_shape_id(shapes: Seq<ShapeLine>, trip: Trip) -> Option<IssueView> {
    match trip.shape_id {
        Some(s) => if shape_exists(shapes, s@) {
            None
        } else {
            Some(
                IssueView::bare(Severity::Error, IssueType::InvalidShapeId, trip.id@).with_object_type(
                    ObjectType::Trip,
                ).with_details("invalid shape id: "@ + s@),
            )
        },
        None => None,
    }
}

/// The issue on a shape that no trip follows.
pub open spec fn unused_shape(trips: Seq<Trip>, shape: ShapeLine) -> Option<IssueView> {
    if shape_used(trips, shape.id@) {
        None
    } else {
        Some(shape_issue(Severity::Information, IssueType::UnusedShapeId, shape.id@))
    }
}

/// The issue on a trip that names no shape.
pub open spec fn no_shape(trip: Trip) -> Option<IssueView> {
    if trip.shape_id is None {
        Some(
            IssueView::bare(Severity::Information, IssueType::NoShape, trip.id@).with_object_type(
                ObjectType::Trip,
            ),
        )
    } else {
        None
    }
}

pub open spec fn missing_coord_of() -> spec_fn(ShapeLine) -> Seq<IssueView> {
    |s: ShapeLine| one(missing_coord(s))
}

pub open spec fn invalid_coord_of() -> spec_fn(ShapeLine) -> Seq<IssueView> {
    |s: ShapeLine| one(invalid_coord(s))
}

pub open spec fn invalid_shape_id_of(shapes: Seq<ShapeLine>) -> spec_fn(Trip) -> Seq<IssueView> {
    |t: Trip| one(invalid_shape_id(shapes, t))
}

pub open spec fn unused_shape_of(trips: Seq<Trip>) -> spec_fn(ShapeLine) -> Seq<IssueView> {
    |s: ShapeLine| one(unused_shape(trips, s))
}

pub open spec fn no_shape_of() -> spec_fn(Trip) -> Seq<IssueView> {
    |t: Trip| one(no_shape(t))
}

/// The issues on shapes: shapes with a point without coordinates, shapes
/// with a point out of range, trips that name an unknown shape, shapes
/// that no trip follows, trips without a shape.
pub open spec fn shape_issues(gtfs: Gtfs) -> Seq<IssueView> {
    gather(gtfs.shapes@, missing_coord_of()) + gather(gtfs.shapes@, invalid_coord_of()) + gather(
        gtfs.trips@,
        invalid_shape_id_of(gtfs.shapes@),
    ) + gather(gtfs.shapes@, unused_shape_of(gtfs.trips@)) + gather(gtfs.trips@, no_shape_of())
}

/// Whether a point has both coordinates.
pub fn has_coord(shape: &Shape) -> (r: bool)
    ensures
        r == point_has_coord(*shape),
{
    shape.latitude != 0 && shape.longitude != 0
}

/// Whether both coordinates of a point lie in their ranges.
pub fn valid_coord(shape: &Shape) -> (r: bool)
    ensures
        r == point_in_range(*shape),
{
    shape.longitude <= MAX_LONGITUDE && shape.longitude >= -MAX_LONGITUDE && shape.latitude <= MAX_LATITUDE
        && shape.latitude >= -MAX_LATITUDE
}

fn make_shape_issue(severity: Severity, issue_type: IssueType, id: &String) -> (r: Issue)
    ensures
        r@ == shape_issue(severity, issue_type, id@),
{
    Issue::new(severity, issue_type, id.as_str()).object_type(ObjectType::Shape)
}

fn check_missing(shape: &ShapeLine) -> (r: Option<Issue>)
    ensures
        shown(r) == missing_coord(*shape),
{
    let mut k: usize = 0;
    while k < shape.points.len()
        invariant
            k <= shape.points@.len(),
            forall|j: int| 0 <= j < k ==> point_has_coord(#[trigger] shape.points@[j]),
        decreases shape.points@.len() - k,
    {
        if !has_coord(&shape.points[k]) {
            return Some(make_shape_issue(Severity::Warning, IssueType::MissingCoordinates, &shape.id));
        }
        k += 1;
    }
    None
}

fn check_invalid(shape: &ShapeLine) -> (r: Option<Issue>)
    ensures
        shown(r) == invalid_coord(*shape),
{
    let mut k: usize = 0;
    while k < shape.points.len()
        invariant
            k <= shape.points@.len(),
            forall|j: int| 0 <= j < k ==> point_in_range(#[trigger] shape.points@[j]),
        decreases shape.points@.len() - k,
    {
        if !valid_coord(&shape.points[k]) {
            return Some(make_shape_issue(Severity::Error, IssueType::InvalidCoordinates, &shape.id));
        }
        k += 1;
    }
    None
}

fn has_shape(shapes: &Vec<ShapeLine>, id: &String) -> (r: bool)
    ensures
        r == shape_exists(shapes@, id@),
{
    let mut k: usize = 0;
    while k < shapes.len()
        invariant
            k <= shapes@.len(),
            forall|j: int| 0 <= j < k ==> (#[trigger] shapes@[j]).id@ != id@,
        decreases shapes@.len() - k,
    {
        if shapes[k].id == *id {
            return true;
        }
        k += 1;
    }
    false
}

fn is_used(trips: &Vec<Trip>, id: &String) -> (r: bool)
    ensures
        r == shape_used(trips@, id@),
{
    let mut t: usize = 0;
    while t < trips.len()
        invariant
            t <= trips@.len(),
            forall|j: int| 0 <= j < t ==> !((#[trigger] trips@[j]).shape_id is Some && trips@[j].shape_id.unwrap()@ == id@),
        decreases trips@.len() - t,
    {
        let same = match &trips[t].shape_id {
            Some(s) => *s == *id,
            None => false,
        };
        if same {
            return true;
        }
        t += 1;
    }
    false
}

/// The issue on a trip that names a shape the model does not have.
pub fn create_invalid_shape_id_issue(trip: &Trip, gtfs: &Gtfs) -> (r: Option<Issue>)
    ensures
        shown(r) == invalid_shape_id(gtfs.shapes@, *trip),
{
    match &trip.shape_id {
        None => None,
        Some(shape_id) => {
            if has_shape(&gtfs.shapes, shape_id) {
                None
            } else {
                let mut d = str_to_string("invalid shape id: ");
                d.append(shape_id.as_str());
                Some(
                    Issue::new(Severity::Error, IssueType::InvalidShapeId, trip.id.as_str()).object_type(
                        ObjectType::Trip,
                    ).details(d.as_str()),
                )
            }
        },
    }
}

fn check_shape_id(gtfs: &Gtfs, trip: &Trip) -> (r: Option<Issue>)
    ensures
        shown(r) == invalid_shape_id(gtfs.shapes@, *trip),
{
    create_invalid_shape_id_issue(trip, gtfs)
}

fn check_unused(gtfs: &Gtfs, shape: &ShapeLine) -> (r: Option<Issue>)
    ensures
        shown(r) == unused_shape(gtfs.trips@, *shape),
{
    if is_used(&gtfs.trips, &shape.id) {
        None
    } else {
        Some(make_shape_issue(Severity::Information, IssueType::UnusedShapeId, &shape.id))
    }
}

fn check_no_shape(trip: &Trip) -> (r: Option<Issue>)
    ensures
        shown(r) == no_shape(*trip),
{
    if trip.shape_id.is_none() {
        Some(Issue::new(Severity::Information, IssueType::NoShape, trip.id.as_str()).object_type(ObjectType::Trip))
    } else {
        None
    }
}

/// The issues on shapes.
pub fn validate(gtfs: &Gtfs) -> (r: Vec<Issue>)
    ensures
        views(r@) == shape_issues(*gtfs),
{
    let mut out = collect(&gtfs.shapes, check_missing, Ghost(missing_coord_of()));
    extend(&mut out, collect(&gtfs.shapes, check_invalid, Ghost(invalid_coord_of())));
    extend(&mut out, collect_with(gtfs, &gtfs.trips, check_shape_id, Ghost(invalid_shape_id_of(gtfs.shapes@))));
    extend(&mut out, collect_with(gtfs, &gtfs.shapes, check_unused, Ghost(unused_shape_of(gtfs.trips@))));
    extend(&mut out, collect(&gtfs.trips, check_no_shape, Ghost(no_shape_of())));
    out
}

} // verus!
