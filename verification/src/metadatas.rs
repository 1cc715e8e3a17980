//! Summary of a feed: its dates, counts, networks, modes and features.
use vstd::prelude::*;
use crate::collect::{gather, holds, lemma_gather_step};
use crate::dates::{highest, lowest, Interval};
use crate::issues::{opt_text, texts, IssueType};
use crate::model::{Agency, Availability, BikesAllowedType, CalendarDate, Calendar, Color, Exception, FeedInfo, LocationType, PickupDropOffType, RawGtfs, RawStopTime, RawTrip, Route, RouteType, Stop, Table};
use crate::lookup::{date_text, format_date};
use crate::text::str_to_string;

verus! {

/// The version of this library, as reports give it.
pub open spec fn version_text() -> Seq<char> {
    "0.1.0"@
}

/// Counts over the rows of a feed.
#[derive(Debug, Clone, Copy, PartialEq, Eq, Structural, Hash)]
pub struct Stats {
    pub stops_count: usize,
    pub stop_areas_count: usize,
    pub stop_points_count: usize,
    /// Known only once the model is linked.
    pub stops_with_wheelchair_info_count: Option<usize>,
    pub routes_count: usize,
    pub routes_with_custom_color_count: usize,
    pub routes_with_short_name_count: usize,
    pub routes_with_long_name_count: usize,
    pub trips_count: usize,
    pub trips_with_bike_info_count: usize,
    pub trips_with_wheelchair_info_count: usize,
    pub trips_with_shape_count: usize,
    pub trips_with_trip_headsign_count: usize,
    pub transfers_count: usize,
    pub fares_attribute_count: usize,
    pub fares_rules_count: usize,
}

/// The summary of a feed. The lists of pairs are read as maps: where a
/// name comes twice, the later pair is the one that counts.
#[derive(Debug, Clone, PartialEq, Eq)]
pub struct Metadata {
    pub start_date: Option<String>,
    pub end_date: Option<String>,
    pub feed_contact_emails: Vec<(String, String)>,
    pub feed_start_dates: Vec<(String, String)>,
    pub feed_end_dates: Vec<(String, String)>,
    pub networks: Vec<String>,
    /// Known only once the model is linked.
    pub networks_start_end_dates: Option<Vec<(String, Option<Interval>)>>,
    pub modes: Vec<String>,
    /// Number of issues of each category, in the order of the categories.
    pub issues_count: Vec<(IssueType, usize)>,
    pub has_fares: bool,
    pub has_shapes: bool,
    pub has_pathways: bool,
    /// Some stop time is to be arranged by phone with the agency.
    pub some_stops_need_phone_agency: bool,
    /// Some stop time is to be coordinated with the driver.
    pub some_stops_need_phone_driver: bool,
    pub validator_version: String,
    pub stops_count: usize,
    pub stats: Stats,
}

/// Texts of a list of pairs.
pub open spec fn pair_texts(v: Seq<(String, String)>) -> Seq<(Seq<char>, Seq<char>)> {
    v.map_values(|p: (String, String)| (p.0@, p.1@))
}

/// Texts of a list of networks with their spans.
pub open spec fn network_texts(v: Seq<(String, Option<Interval>)>) -> Seq<(Seq<char>, Option<Interval>)> {
    v.map_values(|p: (String, Option<Interval>)| (p.0@, p.1))
}

/// What a [`Metadata`] holds.
pub ghost struct MetadataView {
    pub start_date: Option<Seq<char>>,
    pub end_date: Option<Seq<char>>,
    pub feed_contact_emails: Seq<(Seq<char>, Seq<char>)>,
    pub feed_start_dates: Seq<(Seq<char>, Seq<char>)>,
    pub feed_end_dates: Seq<(Seq<char>, Seq<char>)>,
    pub networks: Seq<Seq<char>>,
    pub networks_start_end_dates: Option<Seq<(Seq<char>, Option<Interval>)>>,
    pub modes: Seq<Seq<char>>,
    pub issues_count: Seq<(IssueType, usize)>,
    pub has_fares: bool,
    pub has_shapes: bool,
    pub has_pathways: bool,
    pub some_stops_need_phone_agency: bool,
    pub some_stops_need_phone_driver: bool,
    pub validator_version: Seq<char>,
    pub stops_count: usize,
    pub stats: Stats,
}

impl View for Metadata {
    type V = MetadataView;

    open spec fn view(&self) -> MetadataView {
        MetadataView {
            start_date: opt_text(self.start_date),
            end_date: opt_text(self.end_date),
            feed_contact_emails: pair_texts(self.feed_contact_emails@),
            feed_start_dates: pair_texts(self.feed_start_dates@),
            feed_end_dates: pair_texts(self.feed_end_dates@),
            networks: texts(self.networks@),
            networks_start_end_dates: match self.networks_start_end_dates {
                Some(v) => Some(network_texts(v@)),
                None => None,
            },
            modes: texts(self.modes@),
            issues_count: self.issues_count@,
            has_fares: self.has_fares,
            has_shapes: self.has_shapes,
            has_pathways: self.has_pathways,
            some_stops_need_phone_agency: self.some_stops_need_phone_agency,
            some_stops_need_phone_driver: self.some_stops_need_phone_driver,
            validator_version: self.validator_version@,
            stops_count: self.stops_count,
            stats: self.stats,
        }
    }
}

/// How many of the answers are yes.
pub open spec fn count_true(answers: Seq<bool>) -> nat
    decreases answers.len(),
{
    if answers.len() == 0 {
        0
    } else {
        count_true(answers.drop_last()) + if answers.last() { 1nat } else { 0nat }
    }
}

/// How many items of the list meet `p`.
pub open spec fn count_where<T>(s: Seq<T>, p: spec_fn(T) -> bool) -> nat {
    count_true(s.map_values(p))
}

pub proof fn lemma_count_bound(answers: Seq<bool>)
    ensures
        count_true(answers) <= answers.len(),
    decreases answers.len(),
{
    if answers.len() > 0 {
        lemma_count_bound(answers.drop_last());
    }
}

/// How many rows of a file `matches` says yes to; 0 where the file is
/// absent or unreadable. The count is that of the answers given, one for
/// each row.
pub fn counts_objects<T, F: Fn(&T) -> bool>(objects: &Table<T>, matches: F) -> (n: usize)
    requires
        forall|x: &T| #[trigger] matches.requires((x,)),
    ensures
        exists|answers: Seq<bool>|
            {
                &&& answers.len() == objects.rows().len()
                &&& forall|i: int| 0 <= i < answers.len() ==> matches.ensures((&objects.rows()[i],), #[trigger] answers[i])
                &&& n == count_true(answers)
            },
{
    match objects {
        Table::Rows(rows) => {
            let mut n: usize = 0;
            let ghost mut answers: Seq<bool> = Seq::empty();
            let mut i: usize = 0;
            while i < rows.len()
                invariant
                    i <= rows@.len(),
                    answers.len() == i,
                    n == count_true(answers),
                    n <= i,
                    forall|x: &T| #[trigger] matches.requires((x,)),
                    forall|j: int| 0 <= j < i ==> matches.ensures((&rows@[j],), #[trigger] answers[j]),
                decreases rows@.len() - i,
            {
                let yes = matches(&rows[i]);
                proof {
                    let before = answers;
                    answers = answers.push(yes);
                    assert(answers.drop_last() =~= before);
                }
                if yes {
                    n += 1;
                }
                i += 1;
            }
            n
        },
        _ => {
            assert(count_true(Seq::<bool>::empty()) == 0);
            0
        },
    }
}

/// How many rows of a file meet `p`, where `matches` decides `p`.
fn count<T, F: Fn(&T) -> bool>(objects: &Table<T>, matches: F, Ghost(p): Ghost<spec_fn(T) -> bool>) -> (n: usize)
    requires
        forall|x: &T| #[trigger] matches.requires((x,)),
        forall|x: &T, r: bool| #[trigger] matches.ensures((x,), r) ==> r == p(*x),
    ensures
        n == count_where(objects.rows(), p),
{
    let n = counts_objects(objects, matches);
    proof {
        let answers = choose|answers: Seq<bool>|
            {
                &&& answers.len() == objects.rows().len()
                &&& forall|i: int| 0 <= i < answers.len() ==> matches.ensures((&objects.rows()[i],), #[trigger] answers[i])
                &&& n == count_true(answers)
            };
        assert(answers =~= objects.rows().map_values(p));
    }
    n
}

pub open spec fn is_area() -> spec_fn(Stop) -> bool {
    |s: Stop| s.location_type == LocationType::StopArea
}

pub open spec fn is_point() -> spec_fn(Stop) -> bool {
    |s: Stop| s.location_type == LocationType::StopPoint
}

/// A route has colours of its own where its text is not black or its
/// ground is not white.
pub open spec fn custom_color() -> spec_fn(Route) -> bool {
    |r: Route| r.text_color != (Color { r: 0, g: 0, b: 0 }) || r.color != (Color { r: 255, g: 255, b: 255 })
}

pub open spec fn has_long_name() -> spec_fn(Route) -> bool {
    |r: Route| r.long_name is Some && r.long_name.unwrap()@.len() > 0
}

pub open spec fn has_short_name() -> spec_fn(Route) -> bool {
    |r: Route| r.short_name is Some && r.short_name.unwrap()@.len() > 0
}

pub open spec fn has_bike_info() -> spec_fn(RawTrip) -> bool {
    |t: RawTrip| t.bikes_allowed != BikesAllowedType::NoBikeInfo
}

pub open spec fn has_wheelchair_info() -> spec_fn(RawTrip) -> bool {
    |t: RawTrip| t.wheelchair_accessible != Availability::InformationNotAvailable
}

pub open spec fn has_shape() -> spec_fn(RawTrip) -> bool {
    |t: RawTrip| t.shape_id is Some
}

pub open spec fn has_headsign() -> spec_fn(RawTrip) -> bool {
    |t: RawTrip| t.trip_headsign is Some && t.trip_headsign.unwrap()@.len() > 0
}

/// A count as a machine number.
pub open spec fn counted(n: nat) -> usize {
    n as usize
}

/// The counts over the rows of a feed; a file that is absent or
/// unreadable counts for nothing.
pub open spec fn stats_of(raw: RawGtfs) -> Stats {
    Stats {
        stops_count: counted(raw.stops.rows().len()),
        stop_areas_count: counted(count_where(raw.stops.rows(), is_area())),
        stop_points_count: counted(count_where(raw.stops.rows(), is_point())),
        stops_with_wheelchair_info_count: None,
        routes_count: counted(raw.routes.rows().len()),
        routes_with_custom_color_count: counted(count_where(raw.routes.rows(), custom_color())),
        routes_with_short_name_count: counted(count_where(raw.routes.rows(), has_short_name())),
        routes_with_long_name_count: counted(count_where(raw.routes.rows(), has_long_name())),
        trips_count: counted(raw.trips.rows().len()),
        trips_with_bike_info_count: counted(count_where(raw.trips.rows(), has_bike_info())),
        trips_with_wheelchair_info_count: counted(count_where(raw.trips.rows(), has_wheelchair_info())),
        trips_with_shape_count: counted(count_where(raw.trips.rows(), has_shape())),
        trips_with_trip_headsign_count: counted(count_where(raw.trips.rows(), has_headsign())),
        transfers_count: counted(raw.transfers.rows().len()),
        fares_attribute_count: counted(raw.fare_attributes.rows().len()),
        fares_rules_count: counted(raw.fare_rules.rows().len()),
    }
}

fn stop_is_area(s: &Stop) -> (r: bool)
    ensures
        r == is_area()(*s),
{
    s.location_type == LocationType::StopArea
}

fn stop_is_point(s: &Stop) -> (r: bool)
    ensures
        r == is_point()(*s),
{
    s.location_type == LocationType::StopPoint
}

fn route_has_custom_color(r: &Route) -> (b: bool)
    ensures
        b == custom_color()(*r),
{
    let text_default_color = Color { r: 0, g: 0, b: 0 };
    let route_default_color = Color { r: 255, g: 255, b: 255 };
    r.text_color != text_default_color || r.color != route_default_color
}

fn filled(o: &Option<String>) -> (r: bool)
    ensures
        r == (o is Some && o.unwrap()@.len() > 0),
{
    match o {
        Some(s) => !s.as_str().is_empty(),
        None => false,
    }
}

fn route_has_long_name(r: &Route) -> (b: bool)
    ensures
        b == has_long_name()(*r),
{
    filled(&r.long_name)
}

fn route_has_short_name(r: &Route) -> (b: bool)
    ensures
        b == has_short_name()(*r),
{
    filled(&r.short_name)
}

fn trip_has_bike_info(t: &RawTrip) -> (b: bool)
    ensures
        b == has_bike_info()(*t),
{
    t.bikes_allowed != BikesAllowedType::NoBikeInfo
}

fn trip_has_wheelchair_info(t: &RawTrip) -> (b: bool)
    ensures
        b == has_wheelchair_info()(*t),
{
    t.wheelchair_accessible != Availability::InformationNotAvailable
}

fn trip_has_shape(t: &RawTrip) -> (b: bool)
    ensures
        b == has_shape()(*t),
{
    t.shape_id.is_some()
}

fn trip_has_headsign(t: &RawTrip) -> (b: bool)
    ensures
        b == has_headsign()(*t),
{
    filled(&t.trip_headsign)
}

/// The counts over the rows of a feed.
pub fn compute_stats(gtfs: &RawGtfs) -> (r: Stats)
    ensures
        r == stats_of(*gtfs),
{
    proof {
        lemma_count_bound(gtfs.stops.rows().map_values(is_area()));
        lemma_count_bound(gtfs.stops.rows().map_values(is_point()));
        lemma_count_bound(gtfs.routes.rows().map_values(custom_color()));
        lemma_count_bound(gtfs.routes.rows().map_values(has_short_name()));
        lemma_count_bound(gtfs.routes.rows().map_values(has_long_name()));
        lemma_count_bound(gtfs.trips.rows().map_values(has_bike_info()));
        lemma_count_bound(gtfs.trips.rows().map_values(has_wheelchair_info()));
        lemma_count_bound(gtfs.trips.rows().map_values(has_shape()));
        lemma_count_bound(gtfs.trips.rows().map_values(has_headsign()));
    }
    Stats {
        stops_count: gtfs.stops.len(),
        stop_areas_count: count(&gtfs.stops, stop_is_area, Ghost(is_area())),
        stop_points_count: count(&gtfs.stops, stop_is_point, Ghost(is_point())),
        stops_with_wheelchair_info_count: None,
        routes_count: gtfs.routes.len(),
        routes_with_custom_color_count: count(&gtfs.routes, route_has_custom_color, Ghost(custom_color())),
        routes_with_long_name_count: count(&gtfs.routes, route_has_long_name, Ghost(has_long_name())),
        routes_with_short_name_count: count(&gtfs.routes, route_has_short_name, Ghost(has_short_name())),
        trips_count: gtfs.trips.len(),
        trips_with_bike_info_count: count(&gtfs.trips, trip_has_bike_info, Ghost(has_bike_info())),
        trips_with_wheelchair_info_count: count(&gtfs.trips, trip_has_wheelchair_info, Ghost(has_wheelchair_info())),
        trips_with_shape_count: count(&gtfs.trips, trip_has_shape, Ghost(has_shape())),
        trips_with_trip_headsign_count: count(&gtfs.trips, trip_has_headsign, Ghost(has_headsign())),
        fares_attribute_count: gtfs.fare_attributes.len(),
        fares_rules_count: gtfs.fare_rules.len(),
        transfers_count: gtfs.transfers.len(),
    }
}

/// The two days of a calendar.
pub open spec fn calendar_days_of() -> spec_fn(Calendar) -> Seq<i32> {
    |c: Calendar| seq![c.start_date.days, c.end_date.days]
}

/// The day of a calendar date that adds service.
pub open spec fn added_day_of() -> spec_fn(CalendarDate) -> Seq<i32> {
    |d: CalendarDate| if d.exception_type == Exception::Added {
        seq![d.date.days]
    } else {
        Seq::empty()
    }
}

/// The days that bound the service of a feed: the first and last day of
/// each calendar, and each day that a calendar date adds.
pub open spec fn feed_days(raw: RawGtfs) -> Seq<i32> {
    gather(raw.calendar.rows(), calendar_days_of()) + gather(raw.calendar_dates.rows(), added_day_of())
}

/// The span of the service of a feed.
pub fn feed_span(raw: &RawGtfs) -> (r: Option<Interval>)
    ensures
        r == crate::dates::span(feed_days(*raw)),
{
    let mut acc: Option<Interval> = None;
    match &raw.calendar {
        Table::Rows(rows) => {
            assert(rows@.take(0) =~= Seq::empty());
            let mut i: usize = 0;
            while i < rows.len()
                invariant
                    i <= rows@.len(),
                    acc == crate::dates::span(gather(rows@.take(i as int), calendar_days_of())),
                decreases rows@.len() - i,
            {
                let c = &rows[i];
                proof {
                    lemma_gather_step(rows@, i as int, calendar_days_of());
                    let two = calendar_days_of()(*c);
                    assert(two =~= seq![c.start_date.days].push(c.end_date.days));
                    crate::dates::lemma_span_push(seq![c.start_date.days], c.end_date.days);
                    crate::dates::lemma_span_add(gather(rows@.take(i as int), calendar_days_of()), two);
                }
                let both = Interval { start_date: c.start_date, end_date: c.start_date };
                let mut both = both;
                both.update_bounds_with_date(&c.end_date);
                acc = crate::dates::merge_spans(acc, Some(both));
                i += 1;
            }
            assert(rows@.take(i as int) =~= rows@);
        },
        _ => {},
    }
    let ghost first = gather(raw.calendar.rows(), calendar_days_of());
    match &raw.calendar_dates {
        Table::Rows(rows) => {
            assert(rows@.take(0) =~= Seq::empty());
            assert(first + Seq::<i32>::empty() =~= first);
            let mut i: usize = 0;
            while i < rows.len()
                invariant
                    i <= rows@.len(),
                    acc == crate::dates::span(first + gather(rows@.take(i as int), added_day_of())),
                decreases rows@.len() - i,
            {
                let d = &rows[i];
                proof {
                    lemma_gather_step(rows@, i as int, added_day_of());
                    let so_far = first + gather(rows@.take(i as int), added_day_of());
                    let more = added_day_of()(*d);
                    assert(first + (gather(rows@.take(i as int), added_day_of()) + more) =~= so_far + more);
                    crate::dates::lemma_span_add(so_far, more);
                }
                if d.exception_type == Exception::Added {
                    acc = crate::dates::merge_spans(acc, Some(Interval { start_date: d.date, end_date: d.date }));
                }
                i += 1;
            }
            assert(rows@.take(i as int) =~= rows@);
        },
        _ => {
            assert(first + Seq::<i32>::empty() =~= first);
        },
    }
    acc
}

/// The publisher and the contact address of a feed info that has one.
pub open spec fn contact_of() -> spec_fn(FeedInfo) -> Seq<(Seq<char>, Seq<char>)> {
    |f: FeedInfo| match f.contact_email {
        Some(e) => seq![(f.name@, e@)],
        None => Seq::empty(),
    }
}

/// A publisher with a day written out, where the day is given and can be written.
pub open spec fn dated(name: Seq<char>, day: Option<crate::model::Date>) -> Seq<(Seq<char>, Seq<char>)> {
    match day {
        Some(d) => match date_text(d.days) {
            Some(t) => seq![(name, t)],
            None => Seq::empty(),
        },
        None => Seq::empty(),
    }
}

pub open spec fn start_of() -> spec_fn(FeedInfo) -> Seq<(Seq<char>, Seq<char>)> {
    |f: FeedInfo| dated(f.name@, f.start_date)
}

pub open spec fn end_of() -> spec_fn(FeedInfo) -> Seq<(Seq<char>, Seq<char>)> {
    |f: FeedInfo| dated(f.name@, f.end_date)
}

fn push_dated(out: &mut Vec<(String, String)>, name: &String, day: &Option<crate::model::Date>)
    ensures
        pair_texts(final(out)@) == pair_texts(old(out)@) + dated(name@, *day),
{
    let written = match day {
        Some(d) => format_date(d.days),
        None => None,
    };
    match written {
        Some(t) => {
            out.push((name.clone(), t));
            assert(pair_texts(out@) =~= pair_texts(old(out)@) + dated(name@, *day));
        },
        None => {
            assert(pair_texts(out@) =~= pair_texts(old(out)@) + dated(name@, *day));
        },
    }
}

/// The names without repeats: each at its first place.
pub open spec fn distinct(names: Seq<Seq<char>>) -> Seq<Seq<char>>
    decreases names.len(),
{
    if names.len() == 0 {
        Seq::empty()
    } else if holds(names.drop_last(), names.last()) {
        distinct(names.drop_last())
    } else {
        distinct(names.drop_last()).push(names.last())
    }
}

/// The names without repeats.
pub fn unique(names: &Vec<String>) -> (r: Vec<String>)
    ensures
        texts(r@) == distinct(texts(names@)),
{
    let ghost all = texts(names@);
    let mut out: Vec<String> = Vec::new();
    assert(all.take(0) =~= Seq::empty());
    assert(texts(out@) =~= Seq::<Seq<char>>::empty());
    let mut i: usize = 0;
    while i < names.len()
        invariant
            all == texts(names@),
            i <= names@.len(),
            texts(out@) == distinct(all.take(i as int)),
        decreases names@.len() - i,
    {
        let ghost front = all.take(i as int);
        assert(all.take(i + 1).drop_last() =~= front);
        assert(all.take(i + 1).last() == names@[i as int]@);
        let mut seen = false;
        let mut j: usize = 0;
        while j < i && !seen
            invariant
                all == texts(names@),
                front == all.take(i as int),
                j <= i,
                i < names@.len(),
                seen ==> holds(front, names@[i as int]@),
                !seen ==> forall|k: int| 0 <= k < j ==> #[trigger] front[k] != names@[i as int]@,
            decreases i - j + if seen { 0int } else { 1int },
        {
            assert(front[j as int] == names@[j as int]@);
            if names[j] == names[i] {
                seen = true;
            } else {
                j += 1;
            }
        }
        if !seen {
            let name = names[i].clone();
            proof {
                crate::collect::lemma_texts_push(out@, name);
            }
            out.push(name);
        }
        i += 1;
    }
    assert(all.take(i as int) =~= all);
    out
}

/// Names of the agencies, in order.
pub open spec fn agency_names(rows: Seq<Agency>) -> Seq<Seq<char>> {
    Seq::new(rows.len(), |i: int| rows[i].name@)
}

/// The name of a mode of the main specification.
pub open spec fn mode_name(t: RouteType) -> Option<Seq<char>> {
    match t {
        RouteType::Tramway => Some("tramway"@),
        RouteType::Subway => Some("subway"@),
        RouteType::Rail => Some("rail"@),
        RouteType::Bus => Some("bus"@),
        RouteType::Ferry => Some("ferry"@),
        RouteType::CableCar => Some("cable_car"@),
        RouteType::Gondola => Some("gondola"@),
        RouteType::Funicular => Some("funicular"@),
        RouteType::Coach => Some("coach"@),
        RouteType::Air => Some("air"@),
        RouteType::Taxi => Some("taxi"@),
        RouteType::Other(_) => None,
    }
}

pub open spec fn mode_of() -> spec_fn(Route) -> Seq<Seq<char>> {
    |r: Route| match mode_name(r.route_type) {
        Some(n) => seq![n],
        None => Seq::empty(),
    }
}

fn write_mode_name(t: RouteType) -> (r: Option<String>)
    ensures
        opt_text(r) == mode_name(t),
{
    match t {
        RouteType::Tramway => Some(str_to_string("tramway")),
        RouteType::Subway => Some(str_to_string("subway")),
        RouteType::Rail => Some(str_to_string("rail")),
        RouteType::Bus => Some(str_to_string("bus")),
        RouteType::Ferry => Some(str_to_string("ferry")),
        RouteType::CableCar => Some(str_to_string("cable_car")),
        RouteType::Gondola => Some(str_to_string("gondola")),
        RouteType::Funicular => Some(str_to_string("funicular")),
        RouteType::Coach => Some(str_to_string("coach")),
        RouteType::Air => Some(str_to_string("air")),
        RouteType::Taxi => Some(str_to_string("taxi")),
        RouteType::Other(_) => None,
    }
}

/// Whether a stop time is picked up or dropped off in this way.
pub open spec fn on_demand(st: RawStopTime, kind: PickupDropOffType) -> bool {
    st.pickup_type == kind || st.drop_off_type == kind
}

/// Whether some stop time is picked up or dropped off in this way.
pub open spec fn some_on_demand(rows: Seq<RawStopTime>, kind: PickupDropOffType) -> bool {
    exists|i: int| 0 <= i < rows.len() && on_demand(#[trigger] rows[i], kind)
}

/// Whether a stop time is picked up or dropped off in this way.
pub fn has_on_demand_pickup_dropoff(stop_time: &RawStopTime, pickup_dropoff_type: PickupDropOffType) -> (r: bool)
    ensures
        r == on_demand(*stop_time, pickup_dropoff_type),
{
    stop_time.pickup_type == pickup_dropoff_type || stop_time.drop_off_type == pickup_dropoff_type
}

fn any_on_demand(stop_times: &Table<RawStopTime>, kind: PickupDropOffType) -> (r: bool)
    ensures
        r == some_on_demand(stop_times.rows(), kind),
{
    match stop_times {
        Table::Rows(rows) => {
            let mut i: usize = 0;
            while i < rows.len()
                invariant
                    i <= rows@.len(),
                    stop_times.rows() == rows@,
                    forall|j: int| 0 <= j < i ==> !on_demand(#[trigger] rows@[j], kind),
                decreases rows@.len() - i,
            {
                if has_on_demand_pickup_dropoff(&rows[i], kind) {
                    assert(on_demand(stop_times.rows()[i as int], kind));
                    return true;
                }
                i += 1;
            }
            false
        },
        _ => false,
    }
}

/// The text of the first day of a span, where there is a span and the day
/// can be written.
pub open spec fn start_text(days: Seq<i32>) -> Option<Seq<char>> {
    if days.len() == 0 {
        None
    } else {
        date_text(lowest(days))
    }
}

/// The text of the last day of a span.
pub open spec fn end_text(days: Seq<i32>) -> Option<Seq<char>> {
    if days.len() == 0 {
        None
    } else {
        date_text(highest(days))
    }
}

/// The summary of a feed as its rows give it. A file that is absent or
/// unreadable counts as empty. What needs the linked model is left unset,
/// and no issue is counted yet.
pub open spec fn extracted(raw: RawGtfs) -> MetadataView {
    MetadataView {
        start_date: start_text(feed_days(raw)),
        end_date: end_text(feed_days(raw)),
        feed_contact_emails: gather(raw.feed_info.rows(), contact_of()),
        feed_start_dates: gather(raw.feed_info.rows(), start_of()),
        feed_end_dates: gather(raw.feed_info.rows(), end_of()),
        networks: distinct(agency_names(raw.agencies.rows())),
        networks_start_end_dates: None,
        modes: distinct(gather(raw.routes.rows(), mode_of())),
        issues_count: Seq::empty(),
        has_fares: raw.fare_attributes.rows().len() > 0,
        has_shapes: raw.shapes.rows().len() > 0,
        has_pathways: raw.pathways.rows().len() > 0,
        some_stops_need_phone_agency: some_on_demand(raw.stop_times.rows(), PickupDropOffType::ArrangeByPhone),
        some_stops_need_phone_driver: some_on_demand(raw.stop_times.rows(), PickupDropOffType::CoordinateWithDriver),
        validator_version: version_text(),
        stops_count: stats_of(raw).stops_count,
        stats: stats_of(raw),
    }
}

/// The summary of a feed as its rows give it.
pub fn extract_metadata(gtfs: &RawGtfs) -> (r: Metadata)
    ensures
        r@ == extracted(*gtfs),
{
    let start_end = feed_span(gtfs);
    let (start_date, end_date) = match start_end {
        Some(i) => (format_date(i.start_date.days), format_date(i.end_date.days)),
        None => (None, None),
    };
    let stats = compute_stats(gtfs);

    let mut feed_contact_emails: Vec<(String, String)> = Vec::new();
    let mut feed_start_dates: Vec<(String, String)> = Vec::new();
    let mut feed_end_dates: Vec<(String, String)> = Vec::new();
    assert(pair_texts(feed_contact_emails@) =~= Seq::empty());
    assert(pair_texts(feed_start_dates@) =~= Seq::empty());
    assert(pair_texts(feed_end_dates@) =~= Seq::empty());
    match &gtfs.feed_info {
        Table::Rows(rows) => {
            assert(rows@.take(0) =~= Seq::empty());
            let mut i: usize = 0;
            while i < rows.len()
                invariant
                    i <= rows@.len(),
                    pair_texts(feed_contact_emails@) == gather(rows@.take(i as int), contact_of()),
                    pair_texts(feed_start_dates@) == gather(rows@.take(i as int), start_of()),
                    pair_texts(feed_end_dates@) == gather(rows@.take(i as int), end_of()),
                decreases rows@.len() - i,
            {
                let f = &rows[i];
                proof {
                    lemma_gather_step(rows@, i as int, contact_of());
                    lemma_gather_step(rows@, i as int, start_of());
                    lemma_gather_step(rows@, i as int, end_of());
                }
                let ghost before = pair_texts(feed_contact_emails@);
                match &f.contact_email {
                    Some(e) => {
                        feed_contact_emails.push((f.name.clone(), e.clone()));
                        assert(pair_texts(feed_contact_emails@) =~= before + contact_of()(*f));
                    },
                    None => {
                        assert(pair_texts(feed_contact_emails@) =~= before + contact_of()(*f));
                    },
                }
                push_dated(&mut feed_start_dates, &f.name, &f.start_date);
                push_dated(&mut feed_end_dates, &f.name, &f.end_date);
                i += 1;
            }
            assert(rows@.take(i as int) =~= rows@);
        },
        _ => {},
    }

    let mut names: Vec<String> = Vec::new();
    match &gtfs.agencies {
        Table::Rows(rows) => {
            let mut i: usize = 0;
            assert(texts(names@) =~= agency_names(rows@).take(0));
            while i < rows.len()
                invariant
                    i <= rows@.len(),
                    texts(names@) == agency_names(rows@).take(i as int),
                decreases rows@.len() - i,
            {
                let name = rows[i].name.clone();
                proof {
                    crate::collect::lemma_texts_push(names@, name);
                    crate::collect::lemma_take_push(texts(names@), agency_names(rows@), i as int, name@);
                }
                names.push(name);
                i += 1;
            }
            assert(agency_names(rows@).take(i as int) =~= agency_names(rows@));
        },
        _ => {
            assert(texts(names@) =~= agency_names(gtfs.agencies.rows()));
        },
    }
    let networks = unique(&names);

    let mut mode_names: Vec<String> = Vec::new();
    assert(texts(mode_names@) =~= Seq::<Seq<char>>::empty());
    match &gtfs.routes {
        Table::Rows(rows) => {
            assert(rows@.take(0) =~= Seq::empty());
            let mut i: usize = 0;
            while i < rows.len()
                invariant
                    i <= rows@.len(),
                    texts(mode_names@) == gather(rows@.take(i as int), mode_of()),
                decreases rows@.len() - i,
            {
                proof {
                    lemma_gather_step(rows@, i as int, mode_of());
                }
                let ghost before = texts(mode_names@);
                match write_mode_name(rows[i].route_type) {
                    Some(n) => {
                        proof {
                            crate::collect::lemma_texts_push(mode_names@, n);
                        }
                        mode_names.push(n);
                        assert(texts(mode_names@) =~= before + mode_of()(rows@[i as int]));
                    },
                    None => {
                        assert(texts(mode_names@) =~= before + mode_of()(rows@[i as int]));
                    },
                }
                i += 1;
            }
            assert(rows@.take(i as int) =~= rows@);
        },
        _ => {},
    }
    let modes = unique(&mode_names);

    Metadata {
        start_date,
        end_date,
        feed_contact_emails,
        feed_start_dates,
        feed_end_dates,
        stops_count: stats.stops_count,
        stats,
        networks,
        networks_start_end_dates: None,
        modes,
        issues_count: Vec::new(),
        has_fares: gtfs.fare_attributes.len() > 0,
        has_shapes: gtfs.shapes.len() > 0,
        has_pathways: gtfs.pathways.len() > 0,
        some_stops_need_phone_agency: any_on_demand(&gtfs.stop_times, PickupDropOffType::ArrangeByPhone),
        some_stops_need_phone_driver: any_on_demand(&gtfs.stop_times, PickupDropOffType::CoordinateWithDriver),
        validator_version: str_to_string("0.1.0"),
    }
}

/// Whether it is known if a stop can be boarded in a wheelchair: the
/// stop says so itself, or its parent station says yes or no.
pub open spec fn wheelchair_known(stops: Seq<Stop>) -> spec_fn(Stop) -> bool {
    |s: Stop| s.wheelchair_boarding != Availability::InformationNotAvailable || match crate::validators::stops::parent_of(stops, s) {
        Some(p) => p.wheelchair_boarding == Availability::Available || p.wheelchair_boarding == Availability::NotAvailable,
        None => false,
    }
}

/// How many stops have information on boarding in a wheelchair.
pub fn stops_with_wheelchair_info_count(gtfs: &crate::model::Gtfs) -> (n: usize)
    ensures
        n == count_where(gtfs.stops@, wheelchair_known(gtfs.stops@)),
{
    let stops = &gtfs.stops;
    let ghost p = wheelchair_known(stops@);
    let mut n: usize = 0;
    let mut i: usize = 0;
    assert(stops@.take(0).map_values(p) =~= Seq::<bool>::empty());
    while i < stops.len()
        invariant
            stops == &gtfs.stops,
            p == wheelchair_known(stops@),
            i <= stops@.len(),
            n <= i,
            n == count_true(stops@.take(i as int).map_values(p)),
        decreases stops@.len() - i,
    {
        let stop = &stops[i];
        let known = if stop.wheelchair_boarding != Availability::InformationNotAvailable {
            true
        } else {
            match &stop.parent_station {
                Some(parent) => match crate::validators::stops::find_stop(stops, parent) {
                    Some(k) => {
                        let w = stops[k].wheelchair_boarding;
                        w == Availability::Available || w == Availability::NotAvailable
                    },
                    None => false,
                },
                None => false,
            }
        };
        proof {
            assert(known == p(stops@[i as int]));
            assert(stops@.take(i + 1).map_values(p).drop_last() =~= stops@.take(i as int).map_values(p));
        }
        if known {
            n += 1;
        }
        i += 1;
    }
    assert(stops@.take(i as int) =~= stops@);
    n
}

/// The two days of a calendar, where it is that of the service.
pub open spec fn calendar_days_if(service: Seq<char>) -> spec_fn(Calendar) -> Seq<i32> {
    |c: Calendar| if c.id@ == service {
        seq![c.start_date.days, c.end_date.days]
    } else {
        Seq::empty()
    }
}

/// The days that the calendar dates add, where they are those of the service.
pub open spec fn added_days_if(service: Seq<char>) -> spec_fn(crate::model::ServiceDates) -> Seq<i32> {
    |e: crate::model::ServiceDates| if e.service_id@ == service {
        gather(e.dates@, added_day_of())
    } else {
        Seq::empty()
    }
}

/// The days that bound a service: the first and last day of its
/// calendars, and each day that its calendar dates add.
pub open spec fn service_days(gtfs: crate::model::Gtfs, service: Seq<char>) -> Seq<i32> {
    gather(gtfs.calendar@, calendar_days_if(service)) + gather(gtfs.calendar_dates@, added_days_if(service))
}

fn added_span(dates: &Vec<CalendarDate>) -> (r: Option<Interval>)
    ensures
        r == crate::dates::span(gather(dates@, added_day_of())),
{
    let mut acc: Option<Interval> = None;
    assert(dates@.take(0) =~= Seq::empty());
    let mut i: usize = 0;
    while i < dates.len()
        invariant
            i <= dates@.len(),
            acc == crate::dates::span(gather(dates@.take(i as int), added_day_of())),
        decreases dates@.len() - i,
    {
        let d = &dates[i];
        proof {
            lemma_gather_step(dates@, i as int, added_day_of());
            crate::dates::lemma_span_add(gather(dates@.take(i as int), added_day_of()), added_day_of()(*d));
        }
        if d.exception_type == Exception::Added {
            acc = crate::dates::merge_spans(acc, Some(Interval { start_date: d.date, end_date: d.date }));
        }
        i += 1;
    }
    assert(dates@.take(i as int) =~= dates@);
    acc
}

/// The span of a service; none where it has no day.
pub fn service_start_end_dates(gtfs: &crate::model::Gtfs, service: &String) -> (r: Option<Interval>)
    ensures
        r == crate::dates::span(service_days(*gtfs, service@)),
{
    let mut acc: Option<Interval> = None;
    let calendar = &gtfs.calendar;
    assert(calendar@.take(0) =~= Seq::empty());
    let mut i: usize = 0;
    while i < calendar.len()
        invariant
            i <= calendar@.len(),
            acc == crate::dates::span(gather(calendar@.take(i as int), calendar_days_if(service@))),
        decreases calendar@.len() - i,
    {
        let c = &calendar[i];
        proof {
            lemma_gather_step(calendar@, i as int, calendar_days_if(service@));
            let more = calendar_days_if(service@)(*c);
            crate::dates::lemma_span_add(gather(calendar@.take(i as int), calendar_days_if(service@)), more);
            if c.id@ == service@ {
                assert(more =~= seq![c.start_date.days].push(c.end_date.days));
                crate::dates::lemma_span_push(seq![c.start_date.days], c.end_date.days);
            }
        }
        if c.id == *service {
            let mut both = Interval { start_date: c.start_date, end_date: c.start_date };
            both.update_bounds_with_date(&c.end_date);
            acc = crate::dates::merge_spans(acc, Some(both));
        }
        i += 1;
    }
    assert(calendar@.take(i as int) =~= calendar@);
    let ghost first = gather(gtfs.calendar@, calendar_days_if(service@));
    let dates = &gtfs.calendar_dates;
    assert(dates@.take(0) =~= Seq::empty());
    assert(first + Seq::<i32>::empty() =~= first);
    let mut i: usize = 0;
    while i < dates.len()
        invariant
            i <= dates@.len(),
            acc == crate::dates::span(first + gather(dates@.take(i as int), added_days_if(service@))),
        decreases dates@.len() - i,
    {
        let e = &dates[i];
        proof {
            lemma_gather_step(dates@, i as int, added_days_if(service@));
            let so_far = first + gather(dates@.take(i as int), added_days_if(service@));
            let more = added_days_if(service@)(*e);
            assert(first + (gather(dates@.take(i as int), added_days_if(service@)) + more) =~= so_far + more);
            crate::dates::lemma_span_add(so_far, more);
        }
        if e.service_id == *service {
            acc = crate::dates::merge_spans(acc, added_span(&e.dates));
        }
        i += 1;
    }
    assert(dates@.take(i as int) =~= dates@);
    acc
}

/// The agency that a trip runs for, as the id its route names, where the
/// trip's route is in the model and its service has days. A route may
/// name no agency.
pub open spec fn trip_key(gtfs: crate::model::Gtfs, t: int) -> Option<Option<Seq<char>>> {
    let trip = gtfs.trips@[t];
    match crate::validators::duration_distance::route_of(gtfs.routes@, trip.route_id@) {
        Some(route) => if service_days(gtfs, trip.service_id@).len() > 0 {
            Some(opt_text(route.agency_id))
        } else {
            None
        },
        None => None,
    }
}

/// The days of the services of the first `n` trips that run for an agency.
pub open spec fn agency_days(gtfs: crate::model::Gtfs, key: Option<Seq<char>>, n: nat) -> Seq<i32>
    decreases n,
{
    if n == 0 {
        Seq::empty()
    } else {
        agency_days(gtfs, key, (n - 1) as nat) + if trip_key(gtfs, n - 1) == Some(key) {
            service_days(gtfs, gtfs.trips@[n - 1].service_id@)
        } else {
            Seq::empty()
        }
    }
}

/// Whether the trip at place `t` is the first that runs for its agency.
pub open spec fn first_of_agency(gtfs: crate::model::Gtfs, t: int) -> bool {
    trip_key(gtfs, t) is Some && forall|u: int| 0 <= u < t ==> #[trigger] trip_key(gtfs, u) != trip_key(gtfs, t)
}

/// Ids of the agencies, in order; `None` for an agency without one.
pub open spec fn agency_keys(agencies: Seq<Agency>) -> Seq<Option<Seq<char>>> {
    Seq::new(agencies.len(), |i: int| opt_text(agencies[i].id))
}

/// The ids that are this one.
pub open spec fn is_key(key: Option<Seq<char>>) -> spec_fn(Option<Seq<char>>) -> bool {
    |k: Option<Seq<char>>| k == key
}

/// The name of the first agency with this id; a stock name where there is none.
pub open spec fn agency_name(agencies: Seq<Agency>, key: Option<Seq<char>>) -> Seq<char> {
    match crate::collect::first_where(agency_keys(agencies), is_key(key)) {
        Some(i) => agencies[i].name@,
        None => "default_agency"@,
    }
}

/// The network of the trip at place `t` with the span of its services,
/// where the trip is the first that runs for its agency.
pub open spec fn network_entry(gtfs: crate::model::Gtfs, t: int) -> Seq<(Seq<char>, Option<Interval>)> {
    if first_of_agency(gtfs, t) {
        let key = trip_key(gtfs, t).unwrap();
        seq![(agency_name(gtfs.agencies@, key), crate::dates::span(agency_days(gtfs, key, gtfs.trips@.len())))]
    } else {
        Seq::empty()
    }
}

pub open spec fn network_entry_of(gtfs: crate::model::Gtfs) -> spec_fn(int) -> Seq<(Seq<char>, Option<Interval>)> {
    |t: int| network_entry(gtfs, t)
}

/// The span that two written days give, where both are given and can be read.
pub open spec fn written_span(start: Option<Seq<char>>, end: Option<Seq<char>>) -> Option<Interval> {
    match (start, end) {
        (Some(s), Some(e)) => match (crate::lookup::date_of_text(s), crate::lookup::date_of_text(e)) {
            (Some(a), Some(b)) => Some(Interval { start_date: crate::model::Date { days: a }, end_date: crate::model::Date { days: b } }),
            _ => None,
        },
        _ => None,
    }
}

/// The networks of a feed with the spans of their services. A feed with a
/// single network gives it the span of the feed. Otherwise each agency
/// that trips run for is listed once, in the order of the trips, with the
/// span of the services of its trips; a trip whose route is not in the
/// model is passed over.
pub open spec fn networks_spans(metadata: MetadataView, gtfs: crate::model::Gtfs) -> Seq<(Seq<char>, Option<Interval>)> {
    if metadata.networks.len() == 1 {
        seq![(metadata.networks[0], written_span(metadata.start_date, metadata.end_date))]
    } else {
        gather(crate::collect::places(gtfs.trips@.len()), network_entry_of(gtfs))
    }
}

fn same_key(a: &Option<String>, b: &Option<String>) -> (r: bool)
    ensures
        r == (opt_text(*a) == opt_text(*b)),
{
    match (a, b) {
        (Some(x), Some(y)) => *x == *y,
        (None, None) => true,
        _ => false,
    }
}

fn clone_key(a: &Option<String>) -> (r: Option<String>)
    ensures
        opt_text(r) == opt_text(*a),
{
    match a {
        Some(x) => Some(x.clone()),
        None => None,
    }
}

fn find_agency_name(agencies: &Vec<Agency>, key: &Option<String>) -> (r: String)
    ensures
        r@ == agency_name(agencies@, opt_text(*key)),
{
    let ghost p = is_key(opt_text(*key));
    let mut i: usize = 0;
    while i < agencies.len()
        invariant
            i <= agencies@.len(),
            p == is_key(opt_text(*key)),
            forall|j: int| 0 <= j < i ==> !p(#[trigger] agency_keys(agencies@)[j]),
        decreases agencies@.len() - i,
    {
        if same_key(&agencies[i].id, key) {
            proof {
                assert(p(agency_keys(agencies@)[i as int]));
                crate::collect::lemma_first_found(agency_keys(agencies@), p, i as int);
            }
            return agencies[i].name.clone();
        }
        i += 1;
    }
    proof {
        crate::collect::lemma_first_absent(agency_keys(agencies@), p);
    }
    str_to_string("default_agency")
}

/// Views of a list of agency keys that are there or not.
pub open spec fn key_views(v: Seq<Option<Option<String>>>) -> Seq<Option<Option<Seq<char>>>> {
    v.map_values(
        |k: Option<Option<String>>|
            match k {
                Some(a) => Some(opt_text(a)),
                None => None,
            },
    )
}

/// For each trip, the agency it runs for and the span of its service.
fn trip_keys(gtfs: &crate::model::Gtfs) -> (r: (Vec<Option<Option<String>>>, Vec<Option<Interval>>))
    ensures
        r.0@.len() == gtfs.trips@.len(),
        r.1@.len() == gtfs.trips@.len(),
        forall|t: int| 0 <= t < gtfs.trips@.len() ==> #[trigger] key_views(r.0@)[t] == trip_key(*gtfs, t),
        forall|t: int| 0 <= t < gtfs.trips@.len() ==> #[trigger] r.1@[t] == crate::dates::span(service_days(*gtfs, gtfs.trips@[t].service_id@)),
{
    let mut keys: Vec<Option<Option<String>>> = Vec::new();
    let mut spans: Vec<Option<Interval>> = Vec::new();
    let mut t: usize = 0;
    while t < gtfs.trips.len()
        invariant
            t <= gtfs.trips@.len(),
            keys@.len() == t,
            spans@.len() == t,
            forall|u: int| 0 <= u < t ==> #[trigger] key_views(keys@)[u] == trip_key(*gtfs, u),
            forall|u: int| 0 <= u < t ==> #[trigger] spans@[u] == crate::dates::span(service_days(*gtfs, gtfs.trips@[u].service_id@)),
        decreases gtfs.trips@.len() - t,
    {
        let trip = &gtfs.trips[t];
        let s = service_start_end_dates(gtfs, &trip.service_id);
        let key: Option<Option<String>> = match crate::validators::duration_distance::find_route(&gtfs.routes, &trip.route_id) {
            Some(i) => if s.is_some() {
                Some(clone_key(&gtfs.routes[i].agency_id))
            } else {
                None
            },
            None => None,
        };
        let ghost before = key_views(keys@);
        keys.push(key);
        spans.push(s);
        proof {
            assert(key_views(keys@) =~= before.push(trip_key(*gtfs, t as int)));
        }
        t += 1;
    }
    (keys, spans)
}

/// The agencies that the first `t` trips run for, each at its first place.
pub open spec fn keys_upto(gtfs: crate::model::Gtfs, t: nat) -> Seq<Option<Seq<char>>>
    decreases t,
{
    if t == 0 {
        Seq::empty()
    } else {
        let before = keys_upto(gtfs, (t - 1) as nat);
        match trip_key(gtfs, t - 1) {
            Some(k) => if before.contains(k) {
                before
            } else {
                before.push(k)
            },
            None => before,
        }
    }
}

/// An agency is among those of the first `t` trips exactly when one of
/// these trips runs for it.
proof fn lemma_keys_upto(gtfs: crate::model::Gtfs, t: nat, key: Option<Seq<char>>)
    ensures
        keys_upto(gtfs, t).contains(key) <==> exists|u: int| 0 <= u < t && #[trigger] trip_key(gtfs, u) == Some(key),
    decreases t,
{
    if t > 0 {
        let before = keys_upto(gtfs, (t - 1) as nat);
        lemma_keys_upto(gtfs, (t - 1) as nat, key);
        let now = keys_upto(gtfs, t);
        if now.contains(key) {
            if before.contains(key) {
                let u = choose|u: int| 0 <= u < t - 1 && #[trigger] trip_key(gtfs, u) == Some(key);
                assert(0 <= u < t && trip_key(gtfs, u) == Some(key));
            } else {
                let i = choose|i: int| 0 <= i < now.len() && now[i] == key;
                if i < before.len() {
                    assert(before[i] == key);
                    assert(before.contains(key));
                }
                assert(trip_key(gtfs, t - 1) == Some(key));
            }
        }
        if exists|u: int| 0 <= u < t && #[trigger] trip_key(gtfs, u) == Some(key) {
            let u = choose|u: int| 0 <= u < t && #[trigger] trip_key(gtfs, u) == Some(key);
            if u < t - 1 {
                assert(before.contains(key));
                let i = choose|i: int| 0 <= i < before.len() && before[i] == key;
                assert(now[i] == key);
            } else {
                if before.contains(key) {
                    let i = choose|i: int| 0 <= i < before.len() && before[i] == key;
                    assert(now[i] == key);
                } else {
                    assert(now[before.len() as int] == key);
                }
            }
        }
    }
}

/// Views of a list of agency ids.
pub open spec fn seen_views(v: Seq<Option<String>>) -> Seq<Option<Seq<char>>> {
    v.map_values(|k: Option<String>| opt_text(k))
}

/// Place of the key among those seen.
fn is_seen(seen: &Vec<Option<String>>, key: &Option<String>) -> (r: bool)
    ensures
        r == seen_views(seen@).contains(opt_text(*key)),
{
    let mut k: usize = 0;
    while k < seen.len()
        invariant
            k <= seen@.len(),
            forall|j: int| 0 <= j < k ==> #[trigger] seen_views(seen@)[j] != opt_text(*key),
        decreases seen@.len() - k,
    {
        if same_key(&seen[k], key) {
            assert(seen_views(seen@)[k as int] == opt_text(*key));
            return true;
        }
        k += 1;
    }
    false
}

/// The span of the services of the trips that run for an agency.
fn agency_span(gtfs: &crate::model::Gtfs, keys: &Vec<Option<Option<String>>>, spans: &Vec<Option<Interval>>, key: &Option<String>) -> (r: Option<Interval>)
    requires
        keys@.len() == gtfs.trips@.len(),
        spans@.len() == gtfs.trips@.len(),
        forall|w: int| 0 <= w < gtfs.trips@.len() ==> #[trigger] key_views(keys@)[w] == trip_key(*gtfs, w),
        forall|w: int| 0 <= w < gtfs.trips@.len() ==> #[trigger] spans@[w] == crate::dates::span(service_days(*gtfs, gtfs.trips@[w].service_id@)),
    ensures
        r == crate::dates::span(agency_days(*gtfs, opt_text(*key), gtfs.trips@.len())),
{
    let n = gtfs.trips.len();
    let mut acc: Option<Interval> = None;
    let mut u: usize = 0;
    while u < n
        invariant
            n == gtfs.trips@.len(),
            keys@.len() == n,
            spans@.len() == n,
            forall|w: int| 0 <= w < n ==> #[trigger] key_views(keys@)[w] == trip_key(*gtfs, w),
            forall|w: int| 0 <= w < n ==> #[trigger] spans@[w] == crate::dates::span(service_days(*gtfs, gtfs.trips@[w].service_id@)),
            u <= n,
            acc == crate::dates::span(agency_days(*gtfs, opt_text(*key), u as nat)),
        decreases n - u,
    {
        let same = match &keys[u] {
            Some(other) => same_key(other, key),
            None => false,
        };
        proof {
            assert(key_views(keys@)[u as int] == trip_key(*gtfs, u as int));
            assert(same == (trip_key(*gtfs, u as int) == Some(opt_text(*key))));
            let more = if same {
                service_days(*gtfs, gtfs.trips@[u as int].service_id@)
            } else {
                Seq::empty()
            };
            crate::dates::lemma_span_add(agency_days(*gtfs, opt_text(*key), u as nat), more);
        }
        if same {
            acc = crate::dates::merge_spans(acc, spans[u]);
        }
        u += 1;
    }
    acc
}

/// The networks of a feed with the spans of their services.
pub fn networks_start_end_dates(metadata: &Metadata, gtfs: &crate::model::Gtfs) -> (r: Vec<(String, Option<Interval>)>)
    ensures
        network_texts(r@) == networks_spans(metadata@, *gtfs),
{
    if metadata.networks.len() == 1 {
        // a single agency takes the dates of the feed
        let start_end = match (&metadata.start_date, &metadata.end_date) {
            (Some(sd), Some(ed)) => match (crate::lookup::parse_date(sd.as_str()), crate::lookup::parse_date(ed.as_str())) {
                (Some(a), Some(b)) => Some(
                    Interval { start_date: crate::model::Date { days: a }, end_date: crate::model::Date { days: b } },
                ),
                _ => None,
            },
            _ => None,
        };
        let mut out: Vec<(String, Option<Interval>)> = Vec::new();
        out.push((metadata.networks[0].clone(), start_end));
        assert(metadata@.networks[0] == metadata.networks@[0]@);
        assert(network_texts(out@) =~= networks_spans(metadata@, *gtfs));
        out
    } else {
        let (keys, spans) = trip_keys(gtfs);
        let n = gtfs.trips.len();
        let ghost entry = network_entry_of(*gtfs);
        let ghost all = crate::collect::places(n as nat);
        let mut out: Vec<(String, Option<Interval>)> = Vec::new();
        let mut seen: Vec<Option<String>> = Vec::new();
        assert(seen_views(seen@) =~= Seq::empty());
        assert(network_texts(out@) =~= Seq::empty());
        assert(all.take(0) =~= Seq::empty());
        let mut t: usize = 0;
        while t < n
            invariant
                n == gtfs.trips@.len(),
                keys@.len() == n,
                spans@.len() == n,
                entry == network_entry_of(*gtfs),
                all == crate::collect::places(n as nat),
                forall|u: int| 0 <= u < n ==> #[trigger] key_views(keys@)[u] == trip_key(*gtfs, u),
                forall|u: int| 0 <= u < n ==> #[trigger] spans@[u] == crate::dates::span(service_days(*gtfs, gtfs.trips@[u].service_id@)),
                t <= n,
                network_texts(out@) == gather(all.take(t as int), entry),
                seen_views(seen@) == keys_upto(*gtfs, t as nat),
            decreases n - t,
        {
            proof {
                lemma_gather_step(all, t as int, entry);
                assert(key_views(keys@)[t as int] == trip_key(*gtfs, t as int));
            }
            let ghost before = network_texts(out@);
            proof {
                if trip_key(*gtfs, t as int) is Some {
                    lemma_keys_upto(*gtfs, t as nat, trip_key(*gtfs, t as int).unwrap());
                }
            }
            match &keys[t] {
                Some(key) => {
                    if !is_seen(&seen, key) {
                        proof {
                            assert forall|u: int| 0 <= u < t implies #[trigger] trip_key(*gtfs, u) != trip_key(*gtfs, t as int) by {}
                            assert(first_of_agency(*gtfs, t as int));
                        }
                        let acc = agency_span(gtfs, &keys, &spans, key);
                        let name = find_agency_name(&gtfs.agencies, key);
                        let kept = clone_key(key);
                        let ghost seen_before = seen_views(seen@);
                        out.push((name, acc));
                        seen.push(kept);
                        assert(network_texts(out@) =~= before + entry(t as int));
                        assert(seen_views(seen@) =~= seen_before.push(opt_text(*key)));
                    } else {
                        proof {
                            let u = choose|u: int| 0 <= u < t && #[trigger] trip_key(*gtfs, u) == trip_key(*gtfs, t as int);
                            assert(!first_of_agency(*gtfs, t as int));
                            assert(network_texts(out@) =~= before + entry(t as int));
                        }
                    }
                },
                None => {
                    proof {
                        assert(!first_of_agency(*gtfs, t as int));
                        assert(network_texts(out@) =~= before + entry(t as int));
                    }
                },
            }
            t += 1;
        }
        assert(all.take(t as int) =~= all);
        out
    }
}

/// The summary with what needs the linked model filled in; the rest stays.
pub open spec fn enriched(metadata: MetadataView, gtfs: crate::model::Gtfs) -> MetadataView {
    MetadataView {
        stats: Stats {
            stops_with_wheelchair_info_count: Some(counted(count_where(gtfs.stops@, wheelchair_known(gtfs.stops@)))),
            ..metadata.stats
        },
        networks_start_end_dates: Some(networks_spans(metadata, gtfs)),
        ..metadata
    }
}

impl Metadata {
    /// Fills in what needs the linked model.
    pub fn enrich_with_advanced_infos(&mut self, gtfs: &crate::model::Gtfs)
        ensures
            final(self)@ == enriched(old(self)@, *gtfs),
    {
        proof {
            lemma_count_bound(gtfs.stops@.map_values(wheelchair_known(gtfs.stops@)));
        }
        let spans = networks_start_end_dates(self, gtfs);
        self.stats.stops_with_wheelchair_info_count = Some(stops_with_wheelchair_info_count(gtfs));
        self.networks_start_end_dates = Some(spans);
    }
}

} // verus!
