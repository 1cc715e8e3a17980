//! Trips that serve fewer than two distinct stops.
use vstd::prelude::*;
use crate::collect::{gather, lemma_gather_step, lemma_views_empty, one, push_one, shown, views};
use crate::issues::{Described, Issue, IssueType, IssueView, Severity};
use crate::model::{Gtfs, Stop, Trip};

verus! {

/// Whether all stop times of the trip are at stops with one and the same id.
pub open spec fn single_stop(stops: Seq<Stop>, trip: Trip) -> bool {
    forall|k: int| 0 <= k < trip.stop_times@.len() ==> stops[(#[trigger] trip.stop_times@[k]).stop as int].id@
        == stops[trip.stop_times@[0].stop as int].id@
}

/// The issue on a trip that serves fewer than two distinct stops.
pub open spec fn unusable(stops: Seq<Stop>, trip: Trip) -> Option<IssueView> {
    if single_stop(stops, trip) {
        Some(IssueView::about(Severity::Error, IssueType::UnusableTrip, trip.described()))
    } else {
        None
    }
}

pub open spec fn unusable_of(stops: Seq<Stop>) -> spec_fn(Trip) -> Seq<IssueView> {
    |t: Trip| one(unusable(stops, t))
}

fn mk_issue(trip: &Trip) -> (r: Issue)
    ensures
        r@ == IssueView::about(Severity::Error, IssueType::UnusableTrip, trip.described()),
{
    Issue::new_with_obj(Severity::Error, IssueType::UnusableTrip, trip)
}

fn check_trip(stops: &Vec<Stop>, trip: &Trip) -> (r: Option<Issue>)
    requires
        trip.wf(stops@.len()),
    ensures
        shown(r) == unusable(stops@, *trip),
{
    let mut k: usize = 1;
    while k < trip.stop_times.len()
        invariant
            trip.wf(stops@.len()),
            1 <= k,
            forall|j: int| 0 <= j < k && j < trip.stop_times@.len() ==> stops@[(#[trigger] trip.stop_times@[j]).stop as int].id@
                == stops@[trip.stop_times@[0].stop as int].id@,
        decreases trip.stop_times@.len() - k,
    {
        let first = &stops[trip.stop_times[0].stop];
        let other = &stops[trip.stop_times[k].stop];
        if !(other.id == first.id) {
            assert(!single_stop(stops@, *trip));
            return None;
        }
        k += 1;
    }
    assert(single_stop(stops@, *trip));
    Some(mk_issue(trip))
}

/// The issues on trips that serve fewer than two distinct stops, trip by trip.
pub fn validate(gtfs: &Gtfs) -> (r: Vec<Issue>)
    requires
        gtfs.wf(),
    ensures
        views(r@) == gather(gtfs.trips@, unusable_of(gtfs.stops@)),
{
    let trips = &gtfs.trips;
    let mut out: Vec<Issue> = Vec::new();
    proof {
        lemma_views_empty();
        assert(trips@.take(0) =~= Seq::empty());
    }
    let mut i: usize = 0;
    while i < trips.len()
        invariant
            gtfs.wf(),
            trips == &gtfs.trips,
            i <= trips@.len(),
            views(out@) == gather(trips@.take(i as int), unusable_of(gtfs.stops@)),
        decreases trips@.len() - i,
    {
        proof {
            lemma_gather_step(trips@, i as int, unusable_of(gtfs.stops@));
            assert(gtfs.trips@[i as int].wf(gtfs.stops@.len()));
        }
        push_one(&mut out, check_trip(&gtfs.stops, &trips[i]));
        i += 1;
    }
    assert(trips@.take(i as int) =~= trips@);
    out
}

} // verus!
