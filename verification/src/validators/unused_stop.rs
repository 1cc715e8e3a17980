//! Stop points and stop areas that no trip serves.
//!
//! Stops are told apart by their place in the model.
use vstd::prelude::*;
use vstd::pervasive::VecAdditionalExecFns;
use crate::collect::{places, gather, lemma_gather_step, lemma_views_empty, one, position_of, push_one, views};
use crate::issues::{Described, Issue, IssueType, IssueView, Severity};
use crate::model::{Gtfs, LocationType, Stop};
use crate::validators::stops::{find_stop, stop_ids};

verus! {

/// Whether a stop time of some trip is at the stop at place `i`.
pub open spec fn served_at(gtfs: Gtfs, i: int) -> bool {
    exists|t: int, k: int|
        0 <= t < gtfs.trips@.len() && 0 <= k < gtfs.trips@[t].stop_times@.len() && (#[trigger] gtfs.trips@[t].stop_times@[k]).stop
            == i
}

/// The place of the parent station of the stop at place `s`, where it
/// names one that the model has.
pub open spec fn parent_place(stops: Seq<Stop>, s: int) -> Option<int> {
    match stops[s].parent_station {
        Some(p) => position_of(stop_ids(stops), p@),
        None => None,
    }
}

/// Whether the stop at place `i` is used: a trip serves it, or it is the
/// parent station of a stop that a trip serves.
pub open spec fn used_at(gtfs: Gtfs, i: int) -> bool {
    served_at(gtfs, i) || exists|s: int|
        0 <= s < gtfs.stops@.len() && served_at(gtfs, s) && #[trigger] parent_place(gtfs.stops@, s) == Some(i)
}

/// The issue on the stop at place `i` where it is a stop point or a stop
/// area and is not used.
pub open spec fn unused(gtfs: Gtfs, i: int) -> Option<IssueView> {
    let stop = gtfs.stops@[i];
    if (stop.location_type == LocationType::StopPoint || stop.location_type == LocationType::StopArea) && !used_at(
        gtfs,
        i,
    ) {
        Some(IssueView::about(Severity::Information, IssueType::UnusedStop, stop.described()))
    } else {
        None
    }
}

pub open spec fn unused_of(gtfs: Gtfs) -> spec_fn(int) -> Seq<IssueView> {
    |i: int| one(unused(gtfs, i))
}

/// The issues on unused stops, stop by stop.
pub open spec fn unused_stop_issues(gtfs: Gtfs) -> Seq<IssueView> {
    gather(places(gtfs.stops@.len()), unused_of(gtfs))
}

fn make_unused_stop_issue(stop: &Stop) -> (r: Issue)
    ensures
        r@ == IssueView::about(Severity::Information, IssueType::UnusedStop, stop.described()),
{
    Issue::new_with_obj(Severity::Information, IssueType::UnusedStop, stop)
}

/// Whether a stop time among the first `t` trips, or among the first `k`
/// stop times of the next, is at the stop at place `i`.
spec fn served_before(gtfs: Gtfs, t: int, k: int, i: int) -> bool {
    exists|u: int, j: int|
        0 <= u < gtfs.trips@.len() && 0 <= j < gtfs.trips@[u].stop_times@.len() && (u < t || (u == t && j < k)) && (
        #[trigger] gtfs.trips@[u].stop_times@[j]).stop == i
}

/// For each stop, whether a trip serves it.
fn served_stops(gtfs: &Gtfs) -> (r: Vec<bool>)
    requires
        gtfs.wf(),
    ensures
        r@.len() == gtfs.stops@.len(),
        forall|i: int| 0 <= i < r@.len() ==> r@[i] == served_at(*gtfs, i),
{
    let n = gtfs.stops.len();
    let mut served: Vec<bool> = vec![false; n];
    let mut t: usize = 0;
    while t < gtfs.trips.len()
        invariant
            gtfs.wf(),
            n == gtfs.stops@.len(),
            served@.len() == n,
            t <= gtfs.trips@.len(),
            forall|i: int| 0 <= i < n ==> served@[i] == served_before(*gtfs, t as int, 0, i),
        decreases gtfs.trips@.len() - t,
    {
        let trip = &gtfs.trips[t];
        assert(trip.wf(gtfs.stops@.len()));
        let mut k: usize = 0;
        while k < trip.stop_times.len()
            invariant
                gtfs.wf(),
                n == gtfs.stops@.len(),
                served@.len() == n,
                t < gtfs.trips@.len(),
                *trip == gtfs.trips@[t as int],
                trip.wf(gtfs.stops@.len()),
                k <= trip.stop_times@.len(),
                forall|i: int| 0 <= i < n ==> served@[i] == served_before(*gtfs, t as int, k as int, i),
            decreases trip.stop_times@.len() - k,
        {
            let s = trip.stop_times[k].stop;
            let ghost before = served@;
            served.set(s, true);
            proof {
                assert forall|i: int| 0 <= i < n implies served@[i] == served_before(*gtfs, t as int, k + 1, i) by {
                    if i == s {
                        assert(gtfs.trips@[t as int].stop_times@[k as int].stop == i);
                    } else if served_before(*gtfs, t as int, k + 1, i) {
                        let (u, j) = choose|u: int, j: int|
                            0 <= u < gtfs.trips@.len() && 0 <= j < gtfs.trips@[u].stop_times@.len() && (u < t || (u == t
                                && j < k + 1)) && (#[trigger] gtfs.trips@[u].stop_times@[j]).stop == i;
                        assert(u < t || (u == t && j < k));
                    } else if before[i] {
                        let (u, j) = choose|u: int, j: int|
                            0 <= u < gtfs.trips@.len() && 0 <= j < gtfs.trips@[u].stop_times@.len() && (u < t || (u == t
                                && j < k)) && (#[trigger] gtfs.trips@[u].stop_times@[j]).stop == i;
                        assert(u < t || (u == t && j < k + 1));
                    }
                }
            }
            k += 1;
        }
        proof {
            assert forall|i: int| 0 <= i < n implies served@[i] == served_before(*gtfs, t + 1, 0, i) by {
                if served_before(*gtfs, t + 1, 0, i) {
                    let (u, j) = choose|u: int, j: int|
                        0 <= u < gtfs.trips@.len() && 0 <= j < gtfs.trips@[u].stop_times@.len() && (u < t + 1 || (u == t
                            + 1 && j < 0)) && (#[trigger] gtfs.trips@[u].stop_times@[j]).stop == i;
                    assert(u < t || (u == t && j < k));
                } else if served_before(*gtfs, t as int, k as int, i) {
                    let (u, j) = choose|u: int, j: int|
                        0 <= u < gtfs.trips@.len() && 0 <= j < gtfs.trips@[u].stop_times@.len() && (u < t || (u == t && j
                            < k)) && (#[trigger] gtfs.trips@[u].stop_times@[j]).stop == i;
                    assert(u < t + 1 || (u == t + 1 && j < 0));
                }
            }
        }
        t += 1;
    }
    proof {
        assert forall|i: int| 0 <= i < n implies served@[i] == served_at(*gtfs, i) by {
            if served_at(*gtfs, i) {
                let (u, j) = choose|u: int, j: int|
                    0 <= u < gtfs.trips@.len() && 0 <= j < gtfs.trips@[u].stop_times@.len() && (
                    #[trigger] gtfs.trips@[u].stop_times@[j]).stop == i;
                assert(u < t || (u == t && j < 0));
            } else if served_before(*gtfs, t as int, 0, i) {
                let (u, j) = choose|u: int, j: int|
                    0 <= u < gtfs.trips@.len() && 0 <= j < gtfs.trips@[u].stop_times@.len() && (u < t || (u == t && j
                        < 0)) && (#[trigger] gtfs.trips@[u].stop_times@[j]).stop == i;
            }
        }
    }
    served
}

/// Whether the stop at place `i` is the parent station of a served stop
/// among the first `n`.
spec fn parent_before(gtfs: Gtfs, n: int, i: int) -> bool {
    exists|s: int| 0 <= s < n && s < gtfs.stops@.len() && served_at(gtfs, s) && #[trigger] parent_place(gtfs.stops@, s) == Some(i)
}

proof fn lemma_parent_step(gtfs: Gtfs, s: int, i: int)
    requires
        0 <= s < gtfs.stops@.len(),
    ensures
        parent_before(gtfs, s + 1, i) == (parent_before(gtfs, s, i) || (served_at(gtfs, s) && parent_place(gtfs.stops@, s)
            == Some(i))),
{
    if parent_before(gtfs, s + 1, i) {
        let w = choose|w: int|
            0 <= w < s + 1 && w < gtfs.stops@.len() && served_at(gtfs, w) && #[trigger] parent_place(gtfs.stops@, w) == Some(i);
        if w < s {
            assert(parent_before(gtfs, s, i));
        }
    }
    if parent_before(gtfs, s, i) {
        let w = choose|w: int|
            0 <= w < s && w < gtfs.stops@.len() && served_at(gtfs, w) && #[trigger] parent_place(gtfs.stops@, w) == Some(i);
        assert(0 <= w < s + 1 && parent_place(gtfs.stops@, w) == Some(i));
    }
    if served_at(gtfs, s) && parent_place(gtfs.stops@, s) == Some(i) {
        assert(parent_before(gtfs, s + 1, i));
    }
}

/// For each stop, whether it is used.
fn used_stops(gtfs: &Gtfs) -> (r: Vec<bool>)
    requires
        gtfs.wf(),
    ensures
        r@.len() == gtfs.stops@.len(),
        forall|i: int| 0 <= i < r@.len() ==> r@[i] == used_at(*gtfs, i),
{
    let served = served_stops(gtfs);
    let n = gtfs.stops.len();
    let mut used: Vec<bool> = served.clone();
    assert(used@ =~= served@);
    let mut s: usize = 0;
    while s < n
        invariant
            n == gtfs.stops@.len(),
            served@.len() == n,
            used@.len() == n,
            s <= n,
            forall|i: int| 0 <= i < n ==> #[trigger] served@[i] == served_at(*gtfs, i),
            forall|i: int| 0 <= i < n ==> #[trigger] used@[i] == (served_at(*gtfs, i) || parent_before(*gtfs, s as int, i)),
        decreases n - s,
    {
        let ghost before = used@;
        let place: Option<usize> = if served[s] {
            match &gtfs.stops[s].parent_station {
                Some(p) => find_stop(&gtfs.stops, p),
                None => None,
            }
        } else {
            None
        };
        assert(match place {
            Some(p) => served_at(*gtfs, s as int) && parent_place(gtfs.stops@, s as int) == Some(p as int),
            None => !served_at(*gtfs, s as int) || parent_place(gtfs.stops@, s as int) is None,
        });
        match place {
            Some(p) => {
                assert(p < n) by {
                    crate::collect::lemma_position_is_first(stop_ids(gtfs.stops@), gtfs.stops@[s as int].parent_station.unwrap()@);
                }
                used.set(p, true);
            },
            None => {},
        }
        proof {
            assert forall|i: int| 0 <= i < n implies #[trigger] used@[i] == (served_at(*gtfs, i) || parent_before(*gtfs, s + 1, i)) by {
                let here = served_at(*gtfs, s as int) && parent_place(gtfs.stops@, s as int) == Some(i);
                assert(used@[i] == (before[i] || here));
                assert(before[i] == (served_at(*gtfs, i) || parent_before(*gtfs, s as int, i)));
                lemma_parent_step(*gtfs, s as int, i);
            }
        }
        s += 1;
    }
    proof {
        assert forall|i: int| 0 <= i < n implies used@[i] == used_at(*gtfs, i) by {
            if parent_before(*gtfs, n as int, i) {
                let w = choose|w: int|
                    0 <= w < n && w < gtfs.stops@.len() && served_at(*gtfs, w) && #[trigger] parent_place(gtfs.stops@, w) == Some(
                        i,
                    );
                assert(0 <= w < gtfs.stops@.len());
            }
            if used_at(*gtfs, i) && !served_at(*gtfs, i) {
                let w = choose|w: int|
                    0 <= w < gtfs.stops@.len() && served_at(*gtfs, w) && #[trigger] parent_place(gtfs.stops@, w) == Some(i);
                assert(0 <= w < n);
            }
        }
    }
    used
}

/// The issues on stop points and stop areas that are not used. Stops of
/// other kinds, such as entrances, are left alone.
pub fn validate(gtfs: &Gtfs) -> (r: Vec<Issue>)
    requires
        gtfs.wf(),
    ensures
        views(r@) == unused_stop_issues(*gtfs),
{
    let used = used_stops(gtfs);
    let n = gtfs.stops.len();
    let mut out: Vec<Issue> = Vec::new();
    proof {
        lemma_views_empty();
        assert(places(n as nat).take(0) =~= Seq::empty());
    }
    let mut i: usize = 0;
    while i < n
        invariant
            n == gtfs.stops@.len(),
            used@.len() == n,
            forall|j: int| 0 <= j < n ==> used@[j] == used_at(*gtfs, j),
            i <= n,
            views(out@) == gather(places(n as nat).take(i as int), unused_of(*gtfs)),
        decreases n - i,
    {
        proof {
            lemma_gather_step(places(n as nat), i as int, unused_of(*gtfs));
        }
        let stop = &gtfs.stops[i];
        let concerned = match stop.location_type {
            LocationType::StopPoint => true,
            LocationType::StopArea => true,
            _ => false,
        };
        let found = if concerned && !used[i] {
            Some(make_unused_stop_issue(stop))
        } else {
            None
        };
        push_one(&mut out, found);
        i += 1;
    }
    assert(places(n as nat).take(n as int) =~= places(n as nat));
    out
}

} // verus!
