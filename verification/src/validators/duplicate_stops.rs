//! Stops that look like the same stop twice: same name, same kind, and
//! very close to each other.
//!
//! The distance between two stops is measured outside this library, so the
//! rule works in two steps: `candidate_pairs` names the pairs to measure,
//! and `validate` takes the pairs with their distances in millimetres.
use vstd::prelude::*;
use crate::collect::{collect_with, gather, lemma_gather_member, one, shown, views};
use crate::issues::{Described, Issue, IssueType, IssueView, Severity};
use crate::model::{Gtfs, LocationType, Stop};

verus! {

/// Two stops, by their places in the model, and the great-circle distance
/// between them in millimetres.
#[derive(Debug, Clone, Copy, PartialEq, Eq, Structural, Hash)]
pub struct MeasuredPair {
    pub first: usize,
    pub second: usize,
    pub distance: u64,
}

/// The distance in millimetres under which two stops of this kind are too
/// close: 2 metres for stop points, 100 metres for stop areas.
pub open spec fn threshold(t: LocationType) -> Option<u64> {
    match t {
        LocationType::StopPoint => Some(2_000u64),
        LocationType::StopArea => Some(100_000u64),
        _ => None,
    }
}

/// Whether two stops have the same name and the same kind, a kind for
/// which closeness is judged, and both their coordinates.
pub open spec fn alike(a: Stop, b: Stop) -> bool {
    &&& a.name@ == b.name@
    &&& a.location_type == b.location_type
    &&& threshold(a.location_type) is Some
    &&& a.position() is Some
    &&& b.position() is Some
}

/// Whether the stops at places `a` and `b` are a pair to measure.
pub open spec fn is_candidate(stops: Seq<Stop>, a: int, b: int) -> bool {
    0 <= a < b < stops.len() && alike(stops[a], stops[b])
}

/// Whether two stops that are alike are too close at this distance.
pub open spec fn too_close(a: Stop, distance: u64) -> bool {
    match threshold(a.location_type) {
        Some(t) => distance < t,
        None => false,
    }
}

/// The issue on a measured pair: the first stop with the second as its
/// related object, where the two are alike and too close.
pub open spec fn duplicate(stops: Seq<Stop>, m: MeasuredPair) -> Option<IssueView> {
    if is_candidate(stops, m.first as int, m.second as int) && too_close(stops[m.first as int], m.distance) {
        Some(
            IssueView::about(Severity::Information, IssueType::DuplicateStops, stops[m.first as int].described()).with_related(
                stops[m.second as int].described(),
            ),
        )
    } else {
        None
    }
}

pub open spec fn duplicate_of(stops: Seq<Stop>) -> spec_fn(MeasuredPair) -> Seq<IssueView> {
    |m: MeasuredPair| one(duplicate(stops, m))
}

/// Whether one pair of places comes before another: by the first place,
/// then by the second.
pub open spec fn pair_before(p: (usize, usize), q: (usize, usize)) -> bool {
    p.0 < q.0 || (p.0 == q.0 && p.1 < q.1)
}

fn has_position(s: &Stop) -> (r: bool)
    ensures
        r == s.position() is Some,
{
    s.longitude.is_some() && s.latitude.is_some()
}

fn judged(t: LocationType) -> (r: bool)
    ensures
        r == threshold(t) is Some,
{
    match t {
        LocationType::StopPoint => true,
        LocationType::StopArea => true,
        _ => false,
    }
}

/// Whether two stops have the same name and kind and can be measured.
pub fn duplicate_stops(stop_a: &Stop, stop_b: &Stop) -> (r: bool)
    ensures
        r == alike(*stop_a, *stop_b),
{
    stop_a.name == stop_b.name && stop_a.location_type == stop_b.location_type && judged(stop_a.location_type)
        && has_position(stop_a) && has_position(stop_b)
}

/// Whether two stops of the kind of `stop_a` are too close at this distance.
pub fn too_close_stops(stop_a: &Stop, distance: u64) -> (r: bool)
    ensures
        r == too_close(*stop_a, distance),
{
    match stop_a.location_type {
        LocationType::StopPoint => distance < 2_000,
        LocationType::StopArea => distance < 100_000,
        _ => false,
    }
}

/// The pairs of stops to measure: every pair of places, the smaller first,
/// whose stops are alike; in order, each once.
pub fn candidate_pairs(gtfs: &Gtfs) -> (r: Vec<(usize, usize)>)
    ensures
        forall|k: int| 0 <= k < r@.len() ==> is_candidate(gtfs.stops@, (#[trigger] r@[k]).0 as int, r@[k].1 as int),
        forall|a: int, b: int| #[trigger]
            is_candidate(gtfs.stops@, a, b) ==> exists|k: int|
                0 <= k < r@.len() && (#[trigger] r@[k]).0 == a && r@[k].1 == b,
        forall|j: int, k: int| 0 <= j < k < r@.len() ==> pair_before(#[trigger] r@[j], #[trigger] r@[k]),
{
    let stops = &gtfs.stops;
    let n = stops.len();
    let mut out: Vec<(usize, usize)> = Vec::new();
    let mut a: usize = 0;
    while a < n
        invariant
            n == stops@.len(),
            a <= n,
            forall|k: int| 0 <= k < out@.len() ==> is_candidate(stops@, (#[trigger] out@[k]).0 as int, out@[k].1 as int),
            forall|k: int| 0 <= k < out@.len() ==> (#[trigger] out@[k]).0 < a,
            forall|x: int, y: int| #[trigger]
                is_candidate(stops@, x, y) && x < a ==> exists|k: int|
                    0 <= k < out@.len() && (#[trigger] out@[k]).0 == x && out@[k].1 == y,
            forall|j: int, k: int| 0 <= j < k < out@.len() ==> pair_before(#[trigger] out@[j], #[trigger] out@[k]),
        decreases n - a,
    {
        let mut b: usize = a + 1;
        while b < n
            invariant
                n == stops@.len(),
                a < n,
                a < b <= n,
                forall|k: int| 0 <= k < out@.len() ==> is_candidate(stops@, (#[trigger] out@[k]).0 as int, out@[k].1 as int),
                forall|k: int| 0 <= k < out@.len() ==> pair_before(#[trigger] out@[k], (a, b)),
                forall|x: int, y: int| #[trigger]
                    is_candidate(stops@, x, y) && (x < a || (x == a && y < b)) ==> exists|k: int|
                        0 <= k < out@.len() && (#[trigger] out@[k]).0 == x && out@[k].1 == y,
                forall|j: int, k: int| 0 <= j < k < out@.len() ==> pair_before(#[trigger] out@[j], #[trigger] out@[k]),
            decreases n - b,
        {
            let ghost before = out@;
            if duplicate_stops(&stops[a], &stops[b]) {
                out.push((a, b));
                assert(out@[before.len() as int] == (a, b));
                assert forall|k: int| 0 <= k < before.len() implies #[trigger] out@[k] == before[k] by {}
            }
            proof {
                assert forall|x: int, y: int| #[trigger]
                    is_candidate(stops@, x, y) && (x < a || (x == a && y < b + 1)) implies exists|k: int|
                    0 <= k < out@.len() && (#[trigger] out@[k]).0 == x && out@[k].1 == y by {
                    if x == a && y == b {
                        assert(out@[before.len() as int].0 == x && out@[before.len() as int].1 == y);
                    } else {
                        let k = choose|k: int| 0 <= k < before.len() && (#[trigger] before[k]).0 == x && before[k].1 == y;
                        assert(out@[k].0 == x && out@[k].1 == y);
                    }
                }
            }
            b += 1;
        }
        a += 1;
    }
    out
}

fn check_pair(stops: &Vec<Stop>, m: &MeasuredPair) -> (r: Option<Issue>)
    ensures
        shown(r) == duplicate(stops@, *m),
{
    if m.first < m.second && m.second < stops.len() {
        let a = &stops[m.first];
        let b = &stops[m.second];
        if duplicate_stops(a, b) && too_close_stops(a, m.distance) {
            return Some(make_duplicate_stops_issue(a, b));
        }
    }
    None
}

fn make_duplicate_stops_issue(a: &Stop, b: &Stop) -> (r: Issue)
    ensures
        r@ == IssueView::about(Severity::Information, IssueType::DuplicateStops, a.described()).with_related(b.described()),
{
    Issue::new_with_obj(Severity::Information, IssueType::DuplicateStops, a).add_related_object(b)
}

/// The issues on duplicate stops, measured pair by measured pair. A pair
/// that is no candidate gives nothing, whatever its distance.
pub fn validate(gtfs: &Gtfs, measured: &Vec<MeasuredPair>) -> (r: Vec<Issue>)
    ensures
        views(r@) == gather(measured@, duplicate_of(gtfs.stops@)),
{
    collect_with(&gtfs.stops, measured, check_pair, Ghost(duplicate_of(gtfs.stops@)))
}

/// Every issue on duplicate stops comes from a measured pair of two stops
/// of the same name and kind, neither of them an entrance, whose distance
/// is under the threshold of their kind; it is about the first stop and
/// has the second as its only related object.
pub proof fn lemma_duplicates_are_alike_and_close(stops: Seq<Stop>, measured: Seq<MeasuredPair>, k: int)
    requires
        0 <= k < gather(measured, duplicate_of(stops)).len(),
    ensures
        exists|j: int|
            #![trigger measured[j]]
            {
                &&& 0 <= j < measured.len()
                &&& 0 <= measured[j].first < measured[j].second < stops.len()
                &&& stops[measured[j].first as int].name@ == stops[measured[j].second as int].name@
                &&& stops[measured[j].first as int].location_type == stops[measured[j].second as int].location_type
                &&& stops[measured[j].first as int].location_type != LocationType::StationEntrance
                &&& threshold(stops[measured[j].first as int].location_type) is Some
                &&& measured[j].distance < threshold(stops[measured[j].first as int].location_type).unwrap()
                &&& gather(measured, duplicate_of(stops))[k].issue_type == IssueType::DuplicateStops
                &&& gather(measured, duplicate_of(stops))[k].object_id == stops[measured[j].first as int].id@
                &&& gather(measured, duplicate_of(stops))[k].related_objects == seq![
                    stops[measured[j].second as int].described(),
                ]
            },
{
    let w = lemma_gather_member(measured, duplicate_of(stops), k);
    let m = measured[w.0];
    assert(duplicate(stops, m) is Some);
    assert(gather(measured, duplicate_of(stops))[k].related_objects =~= seq![stops[m.second as int].described()]);
}

} // verus!
