//! Speeds between consecutive stops of a trip: stops too close, a null or
//! negative travel time, a speed above the mode's maximum or very low.
//!
//! Distances are in millimetres, durations in seconds, maximum speeds in
//! metres per hour. A speed of `d` millimetres in `t` seconds is above a
//! maximum of `v` metres per hour exactly when `18 d > 5 v t`, and below
//! 0.1 metre per second exactly when `d < 100 t`.
use vstd::prelude::*;
use vstd::string::StringExecFns;
use crate::collect::{first_where, is_first_where, lemma_first_absent, lemma_first_found, views, lemma_views_push, lemma_views_empty};
use crate::custom_rules::{max_speed_of, CustomRules};
use crate::issues::{Described, Issue, IssueType, IssueView, ObjectType, RelatedObjectView, Severity};
use crate::model::{Gtfs, Route, Stop, StopTime, Trip};
use crate::text::{decimal, hundredths, signed_decimal, str_to_string, write_decimal, write_hundredths, write_signed_decimal};

verus! {

/// Distance in millimetres and duration in seconds between the departure
/// from one stop time and the arrival at the next; known where both times,
/// the coordinates of both stops and the distance are.
pub open spec fn distance_and_duration_of(stops: Seq<Stop>, departure: StopTime, arrival: StopTime) -> Option<(u64, int)> {
    match (
        arrival.arrival_time,
        departure.departure_time,
        stops[departure.stop as int].position(),
        stops[arrival.stop as int].position(),
        departure.distance_to_next,
    ) {
        (Some(a), Some(d), Some(_), Some(_), Some(distance)) => Some((distance, a - d)),
        _ => None,
    }
}

/// What a leg of this distance and duration is reported as, if anything.
pub open spec fn speed_kind(distance: u64, duration: int, max_speed: u64) -> Option<(Severity, IssueType)> {
    if distance < 10_000 {
        Some((Severity::Information, IssueType::CloseStops))
    } else if duration == 0 && distance > 500_000 {
        Some((Severity::Warning, IssueType::NullDuration))
    } else if duration > 0 && 18 * distance > 5 * max_speed * duration {
        Some((Severity::Information, IssueType::ExcessiveSpeed))
    } else if duration < 0 {
        Some((Severity::Warning, IssueType::NegativeTravelTime))
    } else if duration > 0 && distance < 100 * duration {
        Some((Severity::Information, IssueType::Slow))
    } else {
        None
    }
}

/// A distance in whole metres, rounded to the nearest.
pub open spec fn metres(distance: u64) -> nat {
    ((distance + 500) / 1000) as nat
}

/// The speed in hundredths of a kilometre per hour, rounded to the nearest.
pub open spec fn speed_hundredths(distance: u64, duration: int) -> nat
    recommends
        duration > 0,
{
    ((18 * distance + 25 * duration) / (50 * duration)) as nat
}

/// The explanation given with a finding.
pub open spec fn speed_details(kind: IssueType, distance: u64, duration: int) -> Seq<char> {
    match kind {
        IssueType::CloseStops => "distance between the stops is "@ + decimal(metres(distance))
            + " meter(s)"@,
        IssueType::NullDuration => "travel duration is null, but there are "@ + decimal(
            metres(distance),
        ) + " meters between the stops"@,
        IssueType::NegativeTravelTime => "duration is "@ + signed_decimal(duration) + " seconds"@,
        IssueType::ExcessiveSpeed | IssueType::Slow => "computed speed between the stops is "@
            + hundredths(speed_hundredths(distance, duration)) + " km/h ("@ + decimal(
            metres(distance),
        ) + " m travelled in "@ + signed_decimal(duration) + " seconds)"@,
        _ => Seq::empty(),
    }
}

/// One finding on one leg of one trip, before findings on the same pair of
/// stops are merged.
pub ghost struct Finding {
    pub severity: Severity,
    pub issue_type: IssueType,
    pub details: Seq<char>,
    pub departure: RelatedObjectView,
    pub arrival: RelatedObjectView,
    pub route: RelatedObjectView,
}

/// The finding on the leg between two consecutive stop times, if there is one.
pub open spec fn leg_findings(stops: Seq<Stop>, route: Route, rules: CustomRules, departure: StopTime, arrival: StopTime) -> Seq<Finding> {
    match distance_and_duration_of(stops, departure, arrival) {
        Some((distance, duration)) => match speed_kind(distance, duration, max_speed_of(route.route_type, rules)) {
            Some((severity, issue_type)) => seq![
                Finding {
                    severity,
                    issue_type,
                    details: speed_details(issue_type, distance, duration),
                    departure: stops[departure.stop as int].described(),
                    arrival: stops[arrival.stop as int].described(),
                    route: route.described(),
                },
            ],
            None => Seq::empty(),
        },
        None => Seq::empty(),
    }
}

/// The findings on the first `legs` legs of a trip, in order.
pub open spec fn trip_findings(stops: Seq<Stop>, route: Route, rules: CustomRules, trip: Trip, legs: nat) -> Seq<Finding>
    decreases legs,
{
    if legs == 0 {
        Seq::empty()
    } else {
        trip_findings(stops, route, rules, trip, (legs - 1) as nat) + leg_findings(
            stops,
            route,
            rules,
            trip.stop_times@[legs - 1],
            trip.stop_times@[legs as int],
        )
    }
}

/// Number of legs of a trip: one less than its stop times.
pub open spec fn legs_of(trip: Trip) -> nat {
    if trip.stop_times@.len() == 0 {
        0
    } else {
        (trip.stop_times@.len() - 1) as nat
    }
}

/// Ids of the routes, in order.
pub open spec fn route_ids(routes: Seq<Route>) -> Seq<Seq<char>> {
    Seq::new(routes.len(), |i: int| routes[i].id@)
}

/// The first route with this id, if there is one.
pub open spec fn route_of(routes: Seq<Route>, id: Seq<char>) -> Option<Route> {
    match crate::collect::position_of(route_ids(routes), id) {
        Some(i) => Some(routes[i]),
        None => None,
    }
}

/// The findings on the first `n` trips, trip by trip. A trip whose route is
/// not in the model gives none.
pub open spec fn findings_upto(gtfs: Gtfs, rules: CustomRules, n: nat) -> Seq<Finding>
    decreases n,
{
    if n == 0 {
        Seq::empty()
    } else {
        let trip = gtfs.trips@[n - 1];
        findings_upto(gtfs, rules, (n - 1) as nat) + match route_of(gtfs.routes@, trip.route_id@) {
            Some(route) => trip_findings(gtfs.stops@, route, rules, trip, legs_of(trip)),
            None => Seq::empty(),
        }
    }
}

/// Whether the route of every trip is in the model.
pub open spec fn routes_known(gtfs: Gtfs) -> bool {
    forall|t: int| 0 <= t < gtfs.trips@.len() ==> route_of(gtfs.routes@, (#[trigger] gtfs.trips@[t]).route_id@) is Some
}

/// Whether an issue is of this category and severity and lies between
/// these two stops, in either direction.
pub open spec fn same_segment(i: IssueView, severity: Severity, issue_type: IssueType, a: Seq<char>, b: Seq<char>) -> bool {
    &&& i.issue_type == issue_type
    &&& i.severity == severity
    &&& i.related_objects.len() > 0
    &&& ((i.object_id == a && i.related_objects[0].id == b) || (i.object_id == b
        && i.related_objects[0].id == a))
}

/// The issues that a finding falls together with.
pub open spec fn on_segment(severity: Severity, issue_type: IssueType, a: Seq<char>, b: Seq<char>) -> spec_fn(IssueView) -> bool {
    |i: IssueView| same_segment(i, severity, issue_type, a, b)
}

/// Whether the issue already names this route among its related objects.
pub open spec fn names_route(i: IssueView, route_id: Seq<char>) -> bool {
    exists|k: int| 0 <= k < i.related_objects.len() && (#[trigger] i.related_objects[k]).id == route_id
        && i.related_objects[k].object_type == Some(ObjectType::Route)
}

/// The issue with the route among its related objects, added at the end
/// where it was not there.
pub open spec fn with_route(i: IssueView, route: RelatedObjectView) -> IssueView {
    if names_route(i, route.id) {
        i
    } else {
        i.with_related(route)
    }
}

/// The issue that a first finding on a pair of stops opens: about the
/// departure stop, with the arrival stop as its first related object.
pub open spec fn opened(f: Finding) -> IssueView {
    IssueView::about(f.severity, f.issue_type, f.departure).with_related(f.arrival).with_details(f.details)
}

/// The issues after one more finding: it joins the first issue of its
/// category and severity on the same pair of stops, or opens one at the
/// end; either way the issue names the finding's route once.
pub open spec fn absorb(acc: Seq<IssueView>, f: Finding) -> Seq<IssueView> {
    match first_where(acc, on_segment(f.severity, f.issue_type, f.departure.id, f.arrival.id)) {
        Some(k) => acc.update(k, with_route(acc[k], f.route)),
        None => acc.push(with_route(opened(f), f.route)),
    }
}

/// The issues that a list of findings merges into.
pub open spec fn merged(fs: Seq<Finding>) -> Seq<IssueView>
    decreases fs.len(),
{
    if fs.len() == 0 {
        Seq::empty()
    } else {
        absorb(merged(fs.drop_last()), fs.last())
    }
}

/// The issues of the rule: the merged findings of all trips, or none
/// where the route of some trip is not in the model.
pub open spec fn speed_issues(gtfs: Gtfs, rules: CustomRules) -> Seq<IssueView> {
    if routes_known(gtfs) {
        merged(findings_upto(gtfs, rules, gtfs.trips@.len()))
    } else {
        Seq::empty()
    }
}

/// The id of a route that a trip names and the model does not have.
#[derive(Debug, Clone, PartialEq, Eq)]
pub struct ReferenceError {
    pub id: String,
}

/// Place of the first route with this id.
pub fn find_route(routes: &Vec<Route>, id: &String) -> (r: Option<usize>)
    ensures
        match r {
            Some(i) => crate::collect::position_of(route_ids(routes@), id@) == Some(i as int),
            None => crate::collect::position_of(route_ids(routes@), id@) is None,
        },
{
    let mut i: usize = 0;
    while i < routes.len()
        invariant
            i <= routes@.len(),
            forall|j: int| 0 <= j < i ==> #[trigger] route_ids(routes@)[j] != id@,
        decreases routes@.len() - i,
    {
        if routes[i].id == *id {
            proof {
                assert(route_ids(routes@)[i as int] == id@);
                crate::collect::lemma_position_found(route_ids(routes@), id@, i as int);
            }
            return Some(i);
        }
        i += 1;
    }
    proof {
        crate::collect::lemma_position_absent(route_ids(routes@), id@);
    }
    None
}

/// Distance in millimetres and duration in seconds of a leg, where known.
pub fn distance_and_duration(stops: &Vec<Stop>, departure: &StopTime, arrival: &StopTime) -> (r: Option<(u64, i64)>)
    requires
        departure.stop < stops@.len(),
        arrival.stop < stops@.len(),
    ensures
        match r {
            Some((d, t)) => distance_and_duration_of(stops@, *departure, *arrival) == Some((d, t as int)),
            None => distance_and_duration_of(stops@, *departure, *arrival) is None,
        },
{
    let from = &stops[departure.stop];
    let to = &stops[arrival.stop];
    match (
        arrival.arrival_time,
        departure.departure_time,
        from.longitude,
        from.latitude,
        to.longitude,
        to.latitude,
        departure.distance_to_next,
    ) {
        (Some(a), Some(d), Some(_), Some(_), Some(_), Some(_), Some(distance)) => {
            let t: i64 = a as i64 - d as i64;
            Some((distance, t))
        },
        _ => None,
    }
}

/// The maximum speed of a mode, in metres per hour.
pub fn max_speed(route_type: crate::model::RouteType, custom_rules: &CustomRules) -> (r: u64)
    ensures
        r == max_speed_of(route_type, *custom_rules),
{
    custom_rules.max_speed(route_type)
}

/// What a leg of this distance and duration is reported as, if anything.
pub fn classify(distance: u64, duration: i64, max_speed: u64) -> (r: Option<(Severity, IssueType)>)
    requires
        -0x1_0000_0000 < duration < 0x1_0000_0000,
    ensures
        r == speed_kind(distance, duration as int, max_speed),
{
    if distance < 10_000 {
        return Some((Severity::Information, IssueType::CloseStops));
    }
    if duration == 0 && distance > 500_000 {
        return Some((Severity::Warning, IssueType::NullDuration));
    }
    if duration > 0 {
        let lhs: u128 = 18 * (distance as u128);
        assert(5 * max_speed * duration <= 5 * 0xffff_ffff_ffff_ffff * 0x1_0000_0000) by (nonlinear_arith)
            requires
                0 <= max_speed <= 0xffff_ffff_ffff_ffff,
                0 < duration < 0x1_0000_0000,
        ;
        let rhs: u128 = 5 * (max_speed as u128) * (duration as u128);
        if lhs > rhs {
            return Some((Severity::Information, IssueType::ExcessiveSpeed));
        }
    }
    if duration < 0 {
        return Some((Severity::Warning, IssueType::NegativeTravelTime));
    }
    if duration > 0 && (distance as u128) < 100 * (duration as u128) {
        return Some((Severity::Information, IssueType::Slow));
    }
    None
}

/// Writes the explanation given with a finding.
pub fn write_details(kind: IssueType, distance: u64, duration: i64) -> (r: String)
    requires
        -0x1_0000_0000 < duration < 0x1_0000_0000,
        (kind == IssueType::ExcessiveSpeed || kind == IssueType::Slow) ==> duration > 0,
    ensures
        r@ == speed_details(kind, distance, duration as int),
{
    let m = write_decimal((distance as u128 + 500) / 1000);
    match kind {
        IssueType::CloseStops => {
            let mut r = str_to_string("distance between the stops is ");
            r.append(m.as_str());
            r.append(" meter(s)");
            r
        },
        IssueType::NullDuration => {
            let mut r = str_to_string("travel duration is null, but there are ");
            r.append(m.as_str());
            r.append(" meters between the stops");
            r
        },
        IssueType::NegativeTravelTime => {
            let mut r = str_to_string("duration is ");
            let t = write_signed_decimal(duration);
            r.append(t.as_str());
            r.append(" seconds");
            r
        },
        IssueType::ExcessiveSpeed | IssueType::Slow => {
            let mut r = str_to_string("computed speed between the stops is ");
            let t = duration as u128;
            assert(50 * t > 0);
            let speed: u128 = (18 * (distance as u128) + 25 * t) / (50 * t);
            let s = write_hundredths(speed);
            r.append(s.as_str());
            r.append(" km/h (");
            r.append(m.as_str());
            r.append(" m travelled in ");
            let t = write_signed_decimal(duration);
            r.append(t.as_str());
            r.append(" seconds)");
            r
        },
        _ => String::new(),
    }
}

/// Place of the first issue that a finding falls together with.
fn find_segment(out: &Vec<Issue>, severity: Severity, issue_type: IssueType, a: &String, b: &String) -> (r: Option<usize>)
    ensures
        match r {
            Some(k) => is_first_where(views(out@), on_segment(severity, issue_type, a@, b@), k as int),
            None => forall|j: int| 0 <= j < out@.len() ==> !same_segment(#[trigger] views(out@)[j], severity, issue_type, a@, b@),
        },
{
    let ghost p = on_segment(severity, issue_type, a@, b@);
    let mut k: usize = 0;
    while k < out.len()
        invariant
            k <= out@.len(),
            p == on_segment(severity, issue_type, a@, b@),
            forall|j: int| 0 <= j < k ==> !p(#[trigger] views(out@)[j]),
        decreases out@.len() - k,
    {
        let i = &out[k];
        assert(views(out@)[k as int] == i@);
        if i.issue_type == issue_type && i.severity == severity && i.related_objects.len() > 0 {
            let first = &i.related_objects[0];
            assert(i@.related_objects[0] == first@);
            if (i.object_id == *a && first.id == *b) || (i.object_id == *b && first.id == *a) {
                assert(p(views(out@)[k as int]));
                return Some(k);
            }
        }
        assert(!p(views(out@)[k as int]));
        k += 1;
    }
    None
}

/// Whether the issue names this route among its related objects.
fn has_route(issue: &Issue, route_id: &String) -> (r: bool)
    ensures
        r == names_route(issue@, route_id@),
{
    let mut k: usize = 0;
    while k < issue.related_objects.len()
        invariant
            k <= issue.related_objects@.len(),
            forall|j: int| 0 <= j < k ==> !((#[trigger] issue@.related_objects[j]).id == route_id@
                && issue@.related_objects[j].object_type == Some(ObjectType::Route)),
        decreases issue.related_objects@.len() - k,
    {
        let o = &issue.related_objects[k];
        assert(issue@.related_objects[k as int] == o@);
        let is_route = match o.object_type {
            Some(ObjectType::Route) => true,
            _ => false,
        };
        if o.id == *route_id && is_route {
            return true;
        }
        k += 1;
    }
    false
}

/// Takes one finding into the issues found so far.
fn record(out: &mut Vec<Issue>, severity: Severity, issue_type: IssueType, details: &String, departure: &Stop, arrival: &Stop, route: &Route)
    ensures
        views(final(out)@) == absorb(
            views(old(out)@),
            Finding {
                severity,
                issue_type,
                details: details@,
                departure: departure.described(),
                arrival: arrival.described(),
                route: route.described(),
            },
        ),
{
    let ghost f = Finding {
        severity,
        issue_type,
        details: details@,
        departure: departure.described(),
        arrival: arrival.described(),
        route: route.described(),
    };
    let ghost p = on_segment(severity, issue_type, departure.id@, arrival.id@);
    match find_segment(out, severity, issue_type, &departure.id, &arrival.id) {
        Some(k) => {
            proof {
                lemma_first_found(views(out@), p, k as int);
            }
            if !has_route(&out[k], &route.id) {
                let mut issue = out.remove(k);
                issue.push_related_object(route);
                out.insert(k, issue);
                assert(views(out@) =~= views(old(out)@).update(k as int, with_route(views(old(out)@)[k as int], f.route)));
            } else {
                assert(views(out@) =~= views(old(out)@).update(k as int, with_route(views(old(out)@)[k as int], f.route)));
            }
        },
        None => {
            proof {
                assert forall|j: int| 0 <= j < views(out@).len() implies !p(#[trigger] views(out@)[j]) by {}
                lemma_first_absent(views(out@), p);
            }
            let mut issue = Issue::new_with_obj(severity, issue_type, departure).add_related_object(arrival).details(
                details.as_str(),
            );
            if !has_route(&issue, &route.id) {
                issue.push_related_object(route);
            }
            out.push(issue);
            proof {
                lemma_views_push(old(out)@, issue);
            }
        },
    }
}

/// The issues on speeds, or the id of a route that a trip names and the
/// model does not have.
pub fn validate_speeds(gtfs: &Gtfs, custom_rules: &CustomRules) -> (r: Result<Vec<Issue>, ReferenceError>)
    requires
        gtfs.wf(),
    ensures
        r is Ok <==> routes_known(*gtfs),
        r is Ok ==> views(r->Ok_0@) == speed_issues(*gtfs, *custom_rules),
        r is Err ==> exists|t: int| 0 <= t < gtfs.trips@.len() && (#[trigger] gtfs.trips@[t]).route_id@ == r->Err_0.id@
            && route_of(gtfs.routes@, r->Err_0.id@) is None,
{
    let mut out: Vec<Issue> = Vec::new();
    proof {
        lemma_views_empty();
    }
    let mut t: usize = 0;
    while t < gtfs.trips.len()
        invariant
            gtfs.wf(),
            t <= gtfs.trips@.len(),
            views(out@) == merged(findings_upto(*gtfs, *custom_rules, t as nat)),
            forall|u: int| 0 <= u < t ==> route_of(gtfs.routes@, (#[trigger] gtfs.trips@[u]).route_id@) is Some,
        decreases gtfs.trips@.len() - t,
    {
        let trip = &gtfs.trips[t];
        let route = match find_route(&gtfs.routes, &trip.route_id) {
            Some(i) => &gtfs.routes[i],
            None => {
                return Err(ReferenceError { id: trip.route_id.clone() });
            },
        };
        assert(route_of(gtfs.routes@, trip.route_id@) == Some(*route));
        assert(trip.wf(gtfs.stops@.len()));
        let ghost before = findings_upto(*gtfs, *custom_rules, t as nat);
        let legs: usize = if trip.stop_times.len() == 0 {
            0
        } else {
            trip.stop_times.len() - 1
        };
        let mut k: usize = 0;
        while k < legs
            invariant
                trip.wf(gtfs.stops@.len()),
                legs == legs_of(*trip),
                k <= legs,
                views(out@) == merged(before + trip_findings(gtfs.stops@, *route, *custom_rules, *trip, k as nat)),
            decreases trip.stop_times@.len() - k,
        {
            let departure = &trip.stop_times[k];
            let arrival = &trip.stop_times[k + 1];
            let ghost so_far = before + trip_findings(gtfs.stops@, *route, *custom_rules, *trip, k as nat);
            let ghost leg = leg_findings(gtfs.stops@, *route, *custom_rules, *departure, *arrival);
            assert(trip_findings(gtfs.stops@, *route, *custom_rules, *trip, (k + 1) as nat) == trip_findings(
                gtfs.stops@,
                *route,
                *custom_rules,
                *trip,
                k as nat,
            ) + leg);
            match distance_and_duration(&gtfs.stops, departure, arrival) {
                Some((distance, duration)) => {
                    match classify(distance, duration, max_speed(route.route_type, custom_rules)) {
                        Some((severity, issue_type)) => {
                            let details = write_details(issue_type, distance, duration);
                            record(
                                &mut out,
                                severity,
                                issue_type,
                                &details,
                                &gtfs.stops[departure.stop],
                                &gtfs.stops[arrival.stop],
                                route,
                            );
                            proof {
                                assert(leg.len() == 1);
                                assert((so_far + leg).drop_last() =~= so_far);
                                assert((so_far + leg).last() == leg[0]);
                            }
                        },
                        None => {
                            assert(so_far + leg =~= so_far);
                        },
                    }
                },
                None => {
                    assert(so_far + leg =~= so_far);
                },
            }
            assert(before + (trip_findings(gtfs.stops@, *route, *custom_rules, *trip, k as nat) + leg) =~= so_far + leg);
            k += 1;
        }
        assert(k == legs_of(*trip));
        t += 1;
    }
    assert(routes_known(*gtfs));
    Ok(out)
}

/// The issues on speeds between consecutive stops: findings on the same
/// pair of stops, category and severity are merged into one issue, about
/// the departure stop of the first of them, which names each route once.
pub fn validate(gtfs: &Gtfs, custom_rules: &CustomRules) -> (r: Vec<Issue>)
    requires
        gtfs.wf(),
    ensures
        views(r@) == speed_issues(*gtfs, *custom_rules),
{
    match validate_speeds(gtfs, custom_rules) {
        Ok(v) => v,
        Err(_) => {
            proof {
                lemma_views_empty();
            }
            Vec::new()
        },
    }
}

} // verus!
