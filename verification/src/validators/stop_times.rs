//! Stop times: the kind of stop they are at, their sequence numbers, and
//! the time spent at the stop.
use vstd::prelude::*;
use vstd::string::StringExecFns;
use crate::collect::{extend, first_where, gather, is_first_where, lemma_first_absent, lemma_first_found, lemma_gather_step, lemma_views_empty, lemma_views_push, one, push_one, shown, views};
use crate::issues::{Described, Issue, IssueType, IssueView, RelatedObject, RelatedObjectView, Severity, related_views};
use crate::model::{Gtfs, LocationType, Stop, StopTime, Trip};
use crate::text::{decimal, signed_decimal, str_to_string, write_decimal, write_signed_decimal};

verus! {

/// The most trips that an issue on a stop names: more would make the
/// issue too large.
pub const MAX_TRIPS: usize = 20;

/// The name of a kind of location.
pub open spec fn kind_name(t: LocationType) -> Seq<char> {
    match t {
        LocationType::StopPoint => "StopPoint"@,
        LocationType::StopArea => "StopArea"@,
        LocationType::StationEntrance => "StationEntrance"@,
        LocationType::GenericNode => "GenericNode"@,
        LocationType::BoardingArea => "BoardingArea"@,
        LocationType::Unknown(n) => "Unknown("@ + signed_decimal(n as int) + ")"@,
    }
}

/// One stop time at a stop that is no stop point.
pub ghost struct Visit {
    pub stop: RelatedObjectView,
    pub kind: LocationType,
    pub trip: RelatedObjectView,
}

/// The visit that a stop time makes, if its stop is no stop point.
pub open spec fn visit_of(stops: Seq<Stop>, trip: Trip, st: StopTime) -> Seq<Visit> {
    let stop = stops[st.stop as int];
    if stop.location_type != LocationType::StopPoint {
        seq![Visit { stop: stop.described(), kind: stop.location_type, trip: trip.described() }]
    } else {
        Seq::empty()
    }
}

/// The visits of the first `n` stop times of a trip.
pub open spec fn trip_visits(stops: Seq<Stop>, trip: Trip, n: nat) -> Seq<Visit>
    decreases n,
{
    if n == 0 {
        Seq::empty()
    } else {
        trip_visits(stops, trip, (n - 1) as nat) + visit_of(stops, trip, trip.stop_times@[n - 1])
    }
}

/// The visits of the first `n` trips.
pub open spec fn visits_upto(gtfs: Gtfs, n: nat) -> Seq<Visit>
    decreases n,
{
    if n == 0 {
        Seq::empty()
    } else {
        visits_upto(gtfs, (n - 1) as nat) + trip_visits(gtfs.stops@, gtfs.trips@[n - 1], gtfs.trips@[n - 1].stop_times@.len())
    }
}

/// The issues about the object with this id.
pub open spec fn about_id(id: Seq<char>) -> spec_fn(IssueView) -> bool {
    |i: IssueView| i.object_id == id
}

/// The issue with one more trip, unless it names the most it may.
pub open spec fn with_trip(i: IssueView, trip: RelatedObjectView) -> IssueView {
    if i.related_objects.len() < MAX_TRIPS {
        i.with_related(trip)
    } else {
        i
    }
}

/// The issue that the first visit of a stop opens.
pub open spec fn opened(v: Visit) -> IssueView {
    IssueView::about(Severity::Warning, IssueType::InvalidStopLocationTypeInTrip, v.stop).with_details(
        "A "@ + kind_name(v.kind) + " cannot be referenced by a stop time"@,
    )
}

/// The issues after one more visit: it joins the first issue on its stop,
/// or opens one at the end; either way the issue gets the visit's trip.
pub open spec fn note(acc: Seq<IssueView>, v: Visit) -> Seq<IssueView> {
    match first_where(acc, about_id(v.stop.id)) {
        Some(k) => acc.update(k, with_trip(acc[k], v.trip)),
        None => acc.push(with_trip(opened(v), v.trip)),
    }
}

/// The issues that a list of visits comes to.
pub open spec fn noted(vs: Seq<Visit>) -> Seq<IssueView>
    decreases vs.len(),
{
    if vs.len() == 0 {
        Seq::empty()
    } else {
        note(noted(vs.drop_last()), vs.last())
    }
}

/// The issues on stops that a trip serves and that are no stop points:
/// one for each stop id, with the trips that serve it, twenty at most.
pub open spec fn location_type_issues(gtfs: Gtfs) -> Seq<IssueView> {
    noted(visits_upto(gtfs, gtfs.trips@.len()))
}

/// The stops of the stop times that share their sequence number with the
/// next one, pair by pair, over the first `legs` pairs.
pub open spec fn repeated_stops(stops: Seq<Stop>, trip: Trip, legs: nat) -> Seq<RelatedObjectView>
    decreases legs,
{
    if legs == 0 {
        Seq::empty()
    } else {
        let s1 = trip.stop_times@[legs - 1];
        let s2 = trip.stop_times@[legs as int];
        repeated_stops(stops, trip, (legs - 1) as nat) + if s1.stop_sequence == s2.stop_sequence {
            seq![stops[s1.stop as int].described(), stops[s2.stop as int].described()]
        } else {
            Seq::empty()
        }
    }
}

/// The issue on a trip with two consecutive stop times of one sequence number.
pub open spec fn duplicate_sequence(stops: Seq<Stop>, trip: Trip) -> Option<IssueView> {
    let related = repeated_stops(stops, trip, crate::validators::duration_distance::legs_of(trip));
    if related.len() > 0 {
        Some(
            IssueView {
                related_objects: related,
                ..IssueView::about(Severity::Error, IssueType::DuplicateStopSequence, trip.described())
            },
        )
    } else {
        None
    }
}

pub open spec fn duplicate_sequence_of(stops: Seq<Stop>) -> spec_fn(Trip) -> Seq<IssueView> {
    |t: Trip| one(duplicate_sequence(stops, t))
}

/// The issue on a stop time whose arrival is after its departure.
pub open spec fn negative_dwell(trip: Trip, st: StopTime) -> Option<IssueView> {
    if st.arrival_time is Some && st.departure_time is Some && st.arrival_time.unwrap() > st.departure_time.unwrap() {
        Some(
            IssueView::about(Severity::Warning, IssueType::NegativeStopDuration, trip.described()).with_details(
                "Departure time before arrival time at stop sequence "@ + decimal(st.stop_sequence as nat),
            ),
        )
    } else {
        None
    }
}

pub open spec fn negative_dwell_of(trip: Trip) -> spec_fn(StopTime) -> Seq<IssueView> {
    |st: StopTime| one(negative_dwell(trip, st))
}

pub open spec fn trip_dwell_of() -> spec_fn(Trip) -> Seq<IssueView> {
    |t: Trip| gather(t.stop_times@, negative_dwell_of(t))
}

/// The issues on stop times: kinds of stop, then sequence numbers, then
/// time spent at the stop, each trip by trip.
pub open spec fn stop_time_issues(gtfs: Gtfs) -> Seq<IssueView> {
    location_type_issues(gtfs) + gather(gtfs.trips@, duplicate_sequence_of(gtfs.stops@)) + gather(
        gtfs.trips@,
        trip_dwell_of(),
    )
}

fn write_kind_name(t: LocationType) -> (r: String)
    ensures
        r@ == kind_name(t),
{
    match t {
        LocationType::StopPoint => str_to_string("StopPoint"),
        LocationType::StopArea => str_to_string("StopArea"),
        LocationType::StationEntrance => str_to_string("StationEntrance"),
        LocationType::GenericNode => str_to_string("GenericNode"),
        LocationType::BoardingArea => str_to_string("BoardingArea"),
        LocationType::Unknown(n) => {
            let mut r = str_to_string("Unknown(");
            let d = write_signed_decimal(n as i64);
            r.append(d.as_str());
            r.append(")");
            r
        },
    }
}

fn find_about(out: &Vec<Issue>, id: &String) -> (r: Option<usize>)
    ensures
        match r {
            Some(k) => is_first_where(views(out@), about_id(id@), k as int),
            None => forall|j: int| 0 <= j < out@.len() ==> !about_id(id@)(#[trigger] views(out@)[j]),
        },
{
    let mut k: usize = 0;
    while k < out.len()
        invariant
            k <= out@.len(),
            forall|j: int| 0 <= j < k ==> !about_id(id@)(#[trigger] views(out@)[j]),
        decreases out@.len() - k,
    {
        assert(views(out@)[k as int] == out@[k as int]@);
        if out[k].object_id == *id {
            return Some(k);
        }
        k += 1;
    }
    None
}

fn record(out: &mut Vec<Issue>, stop: &Stop, trip: &Trip)
    ensures
        views(final(out)@) == note(
            views(old(out)@),
            Visit { stop: stop.described(), kind: stop.location_type, trip: trip.described() },
        ),
{
    let ghost v = Visit { stop: stop.described(), kind: stop.location_type, trip: trip.described() };
    match find_about(out, &stop.id) {
        Some(k) => {
            proof {
                lemma_first_found(views(out@), about_id(stop.id@), k as int);
            }
            if out[k].related_objects.len() < MAX_TRIPS {
                let mut issue = out.remove(k);
                issue.push_related_object(trip);
                out.insert(k, issue);
            }
            assert(views(out@) =~= views(old(out)@).update(k as int, with_trip(views(old(out)@)[k as int], v.trip)));
        },
        None => {
            proof {
                lemma_first_absent(views(out@), about_id(stop.id@));
            }
            let mut d = str_to_string("A ");
            let kind = write_kind_name(stop.location_type);
            d.append(kind.as_str());
            d.append(" cannot be referenced by a stop time");
            let mut issue = Issue::new_with_obj(Severity::Warning, IssueType::InvalidStopLocationTypeInTrip, stop).details(
                d.as_str(),
            );
            if issue.related_objects.len() < MAX_TRIPS {
                issue.push_related_object(trip);
            }
            out.push(issue);
            proof {
                lemma_views_push(old(out)@, issue);
            }
        },
    }
}

/// The issues on stops that a trip serves and that are no stop points.
pub fn check_location_type(gtfs: &Gtfs) -> (r: Vec<Issue>)
    requires
        gtfs.wf(),
    ensures
        views(r@) == location_type_issues(*gtfs),
{
    let mut out: Vec<Issue> = Vec::new();
    proof {
        lemma_views_empty();
    }
    let mut t: usize = 0;
    while t < gtfs.trips.len()
        invariant
            gtfs.wf(),
            t <= gtfs.trips@.len(),
            views(out@) == noted(visits_upto(*gtfs, t as nat)),
        decreases gtfs.trips@.len() - t,
    {
        let trip = &gtfs.trips[t];
        assert(trip.wf(gtfs.stops@.len()));
        let ghost before = visits_upto(*gtfs, t as nat);
        let mut k: usize = 0;
        assert(before + trip_visits(gtfs.stops@, *trip, 0) =~= before);
        while k < trip.stop_times.len()
            invariant
                trip.wf(gtfs.stops@.len()),
                k <= trip.stop_times@.len(),
                views(out@) == noted(before + trip_visits(gtfs.stops@, *trip, k as nat)),
            decreases trip.stop_times@.len() - k,
        {
            let st = &trip.stop_times[k];
            let stop = &gtfs.stops[st.stop];
            let ghost so_far = before + trip_visits(gtfs.stops@, *trip, k as nat);
            let ghost more = visit_of(gtfs.stops@, *trip, *st);
            let is_point = match stop.location_type {
                LocationType::StopPoint => true,
                _ => false,
            };
            if !is_point {
                record(&mut out, stop, trip);
                proof {
                    assert((so_far + more).drop_last() =~= so_far);
                    assert((so_far + more).last() == more[0]);
                }
            } else {
                assert(so_far + more =~= so_far);
            }
            assert(before + (trip_visits(gtfs.stops@, *trip, k as nat) + more) =~= so_far + more);
            k += 1;
        }
        t += 1;
    }
    out
}

fn check_sequence(stops: &Vec<Stop>, trip: &Trip) -> (r: Option<Issue>)
    requires
        trip.wf(stops@.len()),
    ensures
        shown(r) == duplicate_sequence(stops@, *trip),
{
    let mut related: Vec<RelatedObject> = Vec::new();
    let legs: usize = if trip.stop_times.len() == 0 {
        0
    } else {
        trip.stop_times.len() - 1
    };
    let mut k: usize = 0;
    assert(related_views(related@) =~= repeated_stops(stops@, *trip, 0));
    while k < legs
        invariant
            trip.wf(stops@.len()),
            legs == crate::validators::duration_distance::legs_of(*trip),
            k <= legs,
            related_views(related@) == repeated_stops(stops@, *trip, k as nat),
        decreases legs - k,
    {
        let s1 = &trip.stop_times[k];
        let s2 = &trip.stop_times[k + 1];
        let ghost old_related = related@;
        if s1.stop_sequence == s2.stop_sequence {
            let a = stops[s1.stop].describe();
            let b = stops[s2.stop].describe();
            related.push(a);
            related.push(b);
            assert(related_views(related@) =~= related_views(old_related) + seq![a@, b@]);
        } else {
            assert(related_views(related@) =~= related_views(old_related) + Seq::<RelatedObjectView>::empty());
        }
        k += 1;
    }
    if related.len() > 0 {
        let mut issue = Issue::new_with_obj(Severity::Error, IssueType::DuplicateStopSequence, trip);
        issue.related_objects = related;
        Some(issue)
    } else {
        None
    }
}

/// The issues on trips with two consecutive stop times of one sequence
/// number: the stop times are in the order of their sequence numbers, so
/// equal ones stand side by side.
pub fn check_valid_stop_sequence(gtfs: &Gtfs) -> (r: Vec<Issue>)
    requires
        gtfs.wf(),
    ensures
        views(r@) == gather(gtfs.trips@, duplicate_sequence_of(gtfs.stops@)),
{
    let trips = &gtfs.trips;
    let mut out: Vec<Issue> = Vec::new();
    proof {
        lemma_views_empty();
        assert(trips@.take(0) =~= Seq::empty());
    }
    let mut i: usize = 0;
    while i < trips.len()
        invariant
            gtfs.wf(),
            trips == &gtfs.trips,
            i <= trips@.len(),
            views(out@) == gather(trips@.take(i as int), duplicate_sequence_of(gtfs.stops@)),
        decreases trips@.len() - i,
    {
        proof {
            lemma_gather_step(trips@, i as int, duplicate_sequence_of(gtfs.stops@));
            assert(gtfs.trips@[i as int].wf(gtfs.stops@.len()));
        }
        push_one(&mut out, check_sequence(&gtfs.stops, &trips[i]));
        i += 1;
    }
    assert(trips@.take(i as int) =~= trips@);
    out
}

fn check_dwell(trip: &Trip, st: &StopTime) -> (r: Option<Issue>)
    ensures
        shown(r) == negative_dwell(*trip, *st),
{
    match (st.arrival_time, st.departure_time) {
        (Some(arrival), Some(departure)) => {
            if arrival > departure {
                let mut d = str_to_string("Departure time before arrival time at stop sequence ");
                let n = write_decimal(st.stop_sequence as u128);
                d.append(n.as_str());
                Some(Issue::new_with_obj(Severity::Warning, IssueType::NegativeStopDuration, trip).details(d.as_str()))
            } else {
                None
            }
        },
        _ => None,
    }
}

/// The issues on stop times whose arrival is after their departure.
pub fn check_times_increase(gtfs: &Gtfs) -> (r: Vec<Issue>)
    ensures
        views(r@) == gather(gtfs.trips@, trip_dwell_of()),
{
    let trips = &gtfs.trips;
    let mut out: Vec<Issue> = Vec::new();
    proof {
        lemma_views_empty();
        assert(trips@.take(0) =~= Seq::empty());
    }
    let mut i: usize = 0;
    while i < trips.len()
        invariant
            i <= trips@.len(),
            views(out@) == gather(trips@.take(i as int), trip_dwell_of()),
        decreases trips@.len() - i,
    {
        proof {
            lemma_gather_step(trips@, i as int, trip_dwell_of());
        }
        let found = crate::collect::collect_with(&trips[i], &trips[i].stop_times, check_dwell, Ghost(negative_dwell_of(trips[i as int])));
        extend(&mut out, found);
        i += 1;
    }
    assert(trips@.take(i as int) =~= trips@);
    out
}

/// The issues on stop times.
pub fn validate(gtfs: &Gtfs) -> (r: Vec<Issue>)
    requires
        gtfs.wf(),
    ensures
        views(r@) == stop_time_issues(*gtfs),
{
    let mut out = check_location_type(gtfs);
    extend(&mut out, check_valid_stop_sequence(gtfs));
    extend(&mut out, check_times_increase(gtfs));
    out
}

} // verus!
