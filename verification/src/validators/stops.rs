//! Stops: their coordinates, and the kind of their parent station.
use vstd::prelude::*;
use crate::collect::{gather, lemma_gather_step, lemma_views_empty, one, position_of, push_one, views, extend};
use crate::issues::{Described, Issue, IssueType, IssueView, Severity};
use crate::model::{Gtfs, LocationType, Stop};

verus! {

/// Largest longitude, in units of 1e-7 degree.
pub const MAX_LONGITUDE: i64 = 1_800_000_000;

/// Largest latitude, in units of 1e-7 degree.
pub const MAX_LATITUDE: i64 = 900_000_000;

/// Whether a coordinate is missing: not given, or zero.
pub open spec fn is_missing(c: Option<i64>) -> bool {
    c is None || c == Some(0i64)
}

/// Whether a stop of this kind needs no coordinates.
pub open spec fn coordinates_optional(t: LocationType) -> bool {
    t == LocationType::GenericNode || t == LocationType::BoardingArea
}

/// Which coordinates of the stop are missing, in words.
pub open spec fn missing_details(stop: Stop) -> Seq<char> {
    if is_missing(stop.longitude) && is_missing(stop.latitude) {
        "Latitude and longitude are missing"@
    } else if is_missing(stop.longitude) {
        "Longitude is missing"@
    } else {
        "Latitude is missing"@
    }
}

/// The issue on a stop that lacks a coordinate it needs.
pub open spec fn missing_coord(stop: Stop) -> Option<IssueView> {
    if !coordinates_optional(stop.location_type) && (is_missing(stop.longitude) || is_missing(stop.latitude)) {
        Some(
            IssueView::about(Severity::Warning, IssueType::MissingCoordinates, stop.described()).with_details(
                missing_details(stop),
            ),
        )
    } else {
        None
    }
}

/// Whether a coordinate that is given lies outside its range.
pub open spec fn out_of_range(c: Option<i64>, max: i64) -> bool {
    match c {
        Some(v) => v < -max || v > max,
        None => false,
    }
}

/// The issue on a stop with a coordinate outside its range.
pub open spec fn invalid_coord(stop: Stop) -> Option<IssueView> {
    if out_of_range(stop.longitude, MAX_LONGITUDE) || out_of_range(stop.latitude, MAX_LATITUDE) {
        Some(IssueView::about(Severity::Error, IssueType::InvalidCoordinates, stop.described()))
    } else {
        None
    }
}

/// Ids of the stops, in order.
pub open spec fn stop_ids(stops: Seq<Stop>) -> Seq<Seq<char>> {
    Seq::new(stops.len(), |i: int| stops[i].id@)
}

/// The parent station of a stop: the first stop with the id it names.
pub open spec fn parent_of(stops: Seq<Stop>, stop: Stop) -> Option<Stop> {
    match stop.parent_station {
        Some(p) => match position_of(stop_ids(stops), p@) {
            Some(i) => Some(stops[i]),
            None => None,
        },
        None => None,
    }
}

/// What is wrong with the parent station of a stop, in words, if anything:
/// a stop area has none; a stop point has none or a stop area; a generic
/// node or an entrance has a stop area; a boarding area has a stop point.
pub open spec fn parent_fault(stops: Seq<Stop>, stop: Stop) -> Option<Seq<char>> {
    let parent = parent_of(stops, stop);
    match stop.location_type {
        LocationType::StopArea => if stop.parent_station is Some {
            Some("it's not valid for a stop area to have a parent station"@)
        } else {
            None
        },
        LocationType::StopPoint => if parent is Some && parent.unwrap().location_type != LocationType::StopArea {
            Some("The parent of a stop point should be a stop area"@)
        } else {
            None
        },
        LocationType::GenericNode | LocationType::StationEntrance => if parent is None
            || parent.unwrap().location_type != LocationType::StopArea {
            Some("The parent of a generic node or an entrance should be a stop area"@)
        } else {
            None
        },
        LocationType::BoardingArea => if parent is None || parent.unwrap().location_type != LocationType::StopPoint {
            Some("The parent of a boarding area should be a stop point"@)
        } else {
            None
        },
        LocationType::Unknown(_) => None,
    }
}

/// The issue on a stop whose parent station is not of the kind it must
/// be; the parent, where it is in the model, is the related object.
pub open spec fn invalid_parent(stops: Seq<Stop>, stop: Stop) -> Option<IssueView> {
    match parent_fault(stops, stop) {
        Some(details) => {
            let issue = IssueView::about(Severity::Warning, IssueType::InvalidStopParent, stop.described()).with_details(
                details,
            );
            match parent_of(stops, stop) {
                Some(parent) => Some(issue.with_related(parent.described())),
                None => Some(issue),
            }
        },
        None => None,
    }
}

pub open spec fn missing_coord_of() -> spec_fn(Stop) -> Seq<IssueView> {
    |s: Stop| one(missing_coord(s))
}

pub open spec fn invalid_coord_of() -> spec_fn(Stop) -> Seq<IssueView> {
    |s: Stop| one(invalid_coord(s))
}

pub open spec fn invalid_parent_of(stops: Seq<Stop>) -> spec_fn(Stop) -> Seq<IssueView> {
    |s: Stop| one(invalid_parent(stops, s))
}

/// The issues on coordinates: the missing ones stop by stop, then the
/// invalid ones stop by stop.
pub open spec fn coord_issues(stops: Seq<Stop>) -> Seq<IssueView> {
    gather(stops, missing_coord_of()) + gather(stops, invalid_coord_of())
}

/// The issues on parent stations, stop by stop.
pub open spec fn parent_issues(stops: Seq<Stop>) -> Seq<IssueView> {
    gather(stops, invalid_parent_of(stops))
}

fn coord_missing(c: Option<i64>) -> (r: bool)
    ensures
        r == is_missing(c),
{
    match c {
        Some(v) => v == 0,
        None => true,
    }
}

/// Whether the stop has both coordinates, neither of them zero.
pub fn has_coord(stop: &Stop) -> (r: bool)
    ensures
        r == (!is_missing(stop.longitude) && !is_missing(stop.latitude)),
{
    !coord_missing(stop.longitude) && !coord_missing(stop.latitude)
}

/// The issue on a stop that lacks a coordinate it needs.
pub fn check_coord(stop: &Stop) -> (r: Option<Issue>)
    ensures
        match r {
            Some(i) => missing_coord(*stop) == Some(i@),
            None => missing_coord(*stop) is None,
        },
{
    let optional = match stop.location_type {
        LocationType::GenericNode => true,
        LocationType::BoardingArea => true,
        _ => false,
    };
    if !optional && !has_coord(stop) {
        let details = if coord_missing(stop.longitude) && coord_missing(stop.latitude) {
            "Latitude and longitude are missing"
        } else if coord_missing(stop.longitude) {
            "Longitude is missing"
        } else {
            "Latitude is missing"
        };
        Some(make_missing_coord_issue(stop).details(details))
    } else {
        None
    }
}

fn coord_out_of_range(c: Option<i64>, max: i64) -> (r: bool)
    requires
        0 <= max,
    ensures
        r == out_of_range(c, max),
{
    match c {
        Some(v) => v < -max || v > max,
        None => false,
    }
}

/// Whether no coordinate of the stop lies outside its range.
pub fn valid_coord(stop: &Stop) -> (r: bool)
    ensures
        r == !(out_of_range(stop.longitude, MAX_LONGITUDE) || out_of_range(stop.latitude, MAX_LATITUDE)),
{
    !(coord_out_of_range(stop.longitude, MAX_LONGITUDE) || coord_out_of_range(stop.latitude, MAX_LATITUDE))
}

fn make_invalid_coord_issue<T: Described>(o: &T) -> (r: Issue)
    ensures
        r@ == IssueView::about(Severity::Error, IssueType::InvalidCoordinates, o.described()),
{
    Issue::new_with_obj(Severity::Error, IssueType::InvalidCoordinates, o)
}

fn make_missing_coord_issue<T: Described>(o: &T) -> (r: Issue)
    ensures
        r@ == IssueView::about(Severity::Warning, IssueType::MissingCoordinates, o.described()),
{
    Issue::new_with_obj(Severity::Warning, IssueType::MissingCoordinates, o)
}

fn make_invalid_parent_issue<T: Described>(o: &T) -> (r: Issue)
    ensures
        r@ == IssueView::about(Severity::Warning, IssueType::InvalidStopParent, o.described()),
{
    Issue::new_with_obj(Severity::Warning, IssueType::InvalidStopParent, o)
}

/// Place of the first stop with this id.
pub fn find_stop(stops: &Vec<Stop>, id: &String) -> (r: Option<usize>)
    ensures
        match r {
            Some(i) => position_of(stop_ids(stops@), id@) == Some(i as int),
            None => position_of(stop_ids(stops@), id@) is None,
        },
{
    let mut i: usize = 0;
    while i < stops.len()
        invariant
            i <= stops@.len(),
            forall|j: int| 0 <= j < i ==> #[trigger] stop_ids(stops@)[j] != id@,
        decreases stops@.len() - i,
    {
        if stops[i].id == *id {
            proof {
                assert(stop_ids(stops@)[i as int] == id@);
                crate::collect::lemma_position_found(stop_ids(stops@), id@, i as int);
            }
            return Some(i);
        }
        i += 1;
    }
    proof {
        crate::collect::lemma_position_absent(stop_ids(stops@), id@);
    }
    None
}

/// The issues on coordinates.
pub fn validate_coord(gtfs: &Gtfs) -> (r: Vec<Issue>)
    ensures
        views(r@) == coord_issues(gtfs.stops@),
{
    let stops = &gtfs.stops;
    let mut out: Vec<Issue> = Vec::new();
    proof {
        lemma_views_empty();
        assert(stops@.take(0) =~= Seq::empty());
    }
    let mut i: usize = 0;
    while i < stops.len()
        invariant
            i <= stops@.len(),
            views(out@) == gather(stops@.take(i as int), missing_coord_of()),
        decreases stops@.len() - i,
    {
        proof {
            lemma_gather_step(stops@, i as int, missing_coord_of());
        }
        push_one(&mut out, check_coord(&stops[i]));
        i += 1;
    }
    assert(stops@.take(i as int) =~= stops@);
    let mut invalid: Vec<Issue> = Vec::new();
    proof {
        assert(stops@.take(0) =~= Seq::empty());
    }
    let mut i: usize = 0;
    while i < stops.len()
        invariant
            i <= stops@.len(),
            views(invalid@) == gather(stops@.take(i as int), invalid_coord_of()),
        decreases stops@.len() - i,
    {
        proof {
            lemma_gather_step(stops@, i as int, invalid_coord_of());
        }
        let found = if !valid_coord(&stops[i]) {
            Some(make_invalid_coord_issue(&stops[i]))
        } else {
            None
        };
        push_one(&mut invalid, found);
        i += 1;
    }
    assert(stops@.take(i as int) =~= stops@);
    extend(&mut out, invalid);
    out
}

/// The issue on a stop whose parent station is not of the kind it must be.
fn check_parent(stops: &Vec<Stop>, stop: &Stop) -> (r: Option<Issue>)
    ensures
        match r {
            Some(i) => invalid_parent(stops@, *stop) == Some(i@),
            None => invalid_parent(stops@, *stop) is None,
        },
{
    let parent: Option<&Stop> = match &stop.parent_station {
        Some(p) => match find_stop(stops, p) {
            Some(i) => Some(&stops[i]),
            None => None,
        },
        None => None,
    };
    assert(match parent {
        Some(p) => parent_of(stops@, *stop) == Some(*p),
        None => parent_of(stops@, *stop) is None,
    });
    let parent_is_area = match parent {
        Some(p) => match p.location_type {
            LocationType::StopArea => true,
            _ => false,
        },
        None => false,
    };
    let parent_is_point = match parent {
        Some(p) => match p.location_type {
            LocationType::StopPoint => true,
            _ => false,
        },
        None => false,
    };
    let details: Option<&str> = match stop.location_type {
        LocationType::StopArea => if stop.parent_station.is_some() {
            Some("it's not valid for a stop area to have a parent station")
        } else {
            None
        },
        LocationType::StopPoint => if parent.is_some() && !parent_is_area {
            Some("The parent of a stop point should be a stop area")
        } else {
            None
        },
        LocationType::GenericNode | LocationType::StationEntrance => if !parent_is_area {
            Some("The parent of a generic node or an entrance should be a stop area")
        } else {
            None
        },
        LocationType::BoardingArea => if !parent_is_point {
            Some("The parent of a boarding area should be a stop point")
        } else {
            None
        },
        LocationType::Unknown(_) => None,
    };
    match details {
        Some(d) => {
            let mut issue = make_invalid_parent_issue(stop).details(d);
            match parent {
                Some(p) => {
                    issue.push_related_object(p);
                },
                None => {},
            }
            Some(issue)
        },
        None => None,
    }
}

/// The issues on parent stations. Whether the parent exists is not checked
/// here: the rule on references does.
pub fn validate_parent_id(gtfs: &Gtfs) -> (r: Vec<Issue>)
    ensures
        views(r@) == parent_issues(gtfs.stops@),
{
    let stops = &gtfs.stops;
    let mut out: Vec<Issue> = Vec::new();
    proof {
        lemma_views_empty();
        assert(stops@.take(0) =~= Seq::empty());
    }
    let mut i: usize = 0;
    while i < stops.len()
        invariant
            i <= stops@.len(),
            views(out@) == gather(stops@.take(i as int), invalid_parent_of(stops@)),
        decreases stops@.len() - i,
    {
        proof {
            lemma_gather_step(stops@, i as int, invalid_parent_of(stops@));
        }
        push_one(&mut out, check_parent(stops, &stops[i]));
        i += 1;
    }
    assert(stops@.take(i as int) =~= stops@);
    out
}

/// The issues on stops: coordinates first, then parent stations.
pub fn validate(gtfs: &Gtfs) -> (r: Vec<Issue>)
    ensures
        views(r@) == coord_issues(gtfs.stops@) + parent_issues(gtfs.stops@),
{
    let mut out = validate_coord(gtfs);
    let parents = validate_parent_id(gtfs);
    extend(&mut out, parents);
    out
}

} // verus!
