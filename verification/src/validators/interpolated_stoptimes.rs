//! Trips whose first or last stop time lacks a time: the times between
//! can be interpolated, those at the ends cannot.
use vstd::prelude::*;
use crate::collect::{collect, gather, one, shown, views};
use crate::issues::{Described, Issue, IssueType, IssueView, Severity};
use crate::model::{Gtfs, StopTime, Trip};

verus! {

/// Whether a stop time lacks its arrival or its departure.
pub open spec fn lacks_time(st: StopTime) -> bool {
    st.departure_time is None || st.arrival_time is None
}

/// The issue on a trip whose first or last stop time lacks a time.
pub open spec fn not_interpolable(trip: Trip) -> Option<IssueView> {
    if trip.stop_times@.len() > 0 && (lacks_time(trip.stop_times@.first()) || lacks_time(trip.stop_times@.last())) {
        Some(
            IssueView::about(Severity::Warning, IssueType::ImpossibleToInterpolateStopTimes, trip.described()).with_details(
                "The first and last stop time of a trip cannot have empty departure/arrivals as they cannot be interpolated"@,
            ),
        )
    } else {
        None
    }
}

pub open spec fn not_interpolable_of() -> spec_fn(Trip) -> Seq<IssueView> {
    |t: Trip| one(not_interpolable(t))
}

/// The issue on a trip whose first or last stop time lacks a time.
pub fn impossible_to_interpolate_st(trip: &Trip) -> (r: Option<Issue>)
    ensures
        shown(r) == not_interpolable(*trip),
{
    let n = trip.stop_times.len();
    if n == 0 {
        return None;
    }
    let first_st = &trip.stop_times[0];
    let last_st = &trip.stop_times[n - 1];
    if first_st.departure_time.is_none() || first_st.arrival_time.is_none() || last_st.departure_time.is_none()
        || last_st.arrival_time.is_none() {
        Some(
            Issue::new_with_obj(Severity::Warning, IssueType::ImpossibleToInterpolateStopTimes, trip).details(
                "The first and last stop time of a trip cannot have empty departure/arrivals as they cannot be interpolated",
            ),
        )
    } else {
        None
    }
}

/// The issues on trips whose ends cannot be interpolated, trip by trip.
pub fn validate(gtfs: &Gtfs) -> (r: Vec<Issue>)
    ensures
        views(r@) == gather(gtfs.trips@, not_interpolable_of()),
{
    collect(&gtfs.trips, impossible_to_interpolate_st, Ghost(not_interpolable_of()))
}

} // verus!
