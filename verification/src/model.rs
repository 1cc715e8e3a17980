//! The feed as the rules read it: the rows of each file, and the linked model.
use vstd::prelude::*;
use crate::issues::{Described, ObjectType, RelatedObject, RelatedObjectView};
use crate::lookup::{date_text, format_date};
use crate::text::{concat3, str_to_string};

verus! {

/// Where a stop stands in the hierarchy of locations.
#[derive(Debug, Clone, Copy, PartialEq, Eq, Structural, Hash)]
pub enum LocationType {
    StopPoint,
    StopArea,
    StationEntrance,
    GenericNode,
    BoardingArea,
    Unknown(i16),
}

/// Whether something is accessible.
#[derive(Debug, Clone, Copy, PartialEq, Eq, Structural, Hash)]
pub enum Availability {
    InformationNotAvailable,
    Available,
    NotAvailable,
    Unknown(i16),
}

/// Whether bikes may be taken on a trip.
#[derive(Debug, Clone, Copy, PartialEq, Eq, Structural, Hash)]
pub enum BikesAllowedType {
    NoBikeInfo,
    AtLeastOneBike,
    NoBikesAllowed,
    Unknown(i16),
}

/// The mode of a route; `Other` holds a code outside the main specification.
#[derive(Debug, Clone, Copy, PartialEq, Eq, Structural, Hash)]
pub enum RouteType {
    Tramway,
    Subway,
    Rail,
    Bus,
    Ferry,
    CableCar,
    Gondola,
    Funicular,
    Coach,
    Air,
    Taxi,
    Other(i16),
}

/// How riders are picked up or dropped off at a stop time.
#[derive(Debug, Clone, Copy, PartialEq, Eq, Structural, Hash)]
pub enum PickupDropOffType {
    Regular,
    NotAvailable,
    ArrangeByPhone,
    CoordinateWithDriver,
    Unknown(i16),
}

/// Whether a calendar date adds or removes a day of service.
#[derive(Debug, Clone, Copy, PartialEq, Eq, Structural, Hash)]
pub enum Exception {
    Added,
    Deleted,
}

/// How many transfers a fare allows; `Other` holds an unrecognized code.
#[derive(Debug, Clone, Copy, PartialEq, Eq, Structural, Hash)]
pub enum Transfers {
    Unlimited,
    NoTransfer,
    UniqueTransfer,
    TwoTransfers,
    Other(i16),
}

/// A calendar day, by its number in the proleptic Gregorian calendar, where
/// January 1 of year 1 is day 1.
#[derive(Debug, Clone, Copy, PartialEq, Eq, Structural, Hash)]
pub struct Date {
    pub days: i32,
}

/// A colour.
#[derive(Debug, Clone, Copy, PartialEq, Eq, Structural, Hash)]
pub struct Color {
    pub r: u8,
    pub g: u8,
    pub b: u8,
}

#[derive(Debug, Clone, PartialEq, Eq)]
pub struct Stop {
    pub id: String,
    pub name: String,
    pub location_type: LocationType,
    pub parent_station: Option<String>,
    /// In units of 1e-7 degree.
    pub longitude: Option<i64>,
    /// In units of 1e-7 degree.
    pub latitude: Option<i64>,
    pub wheelchair_boarding: Availability,
}

#[derive(Debug, Clone, PartialEq, Eq)]
pub struct Route {
    pub id: String,
    pub short_name: Option<String>,
    pub long_name: Option<String>,
    pub route_type: RouteType,
    pub agency_id: Option<String>,
    pub color: Color,
    pub text_color: Color,
}

/// A row of trips.txt.
#[derive(Debug, Clone, PartialEq, Eq)]
pub struct RawTrip {
    pub id: String,
    pub service_id: String,
    pub route_id: String,
    pub shape_id: Option<String>,
    pub trip_headsign: Option<String>,
    pub wheelchair_accessible: Availability,
    pub bikes_allowed: BikesAllowedType,
}

/// A row of stop_times.txt.
#[derive(Debug, Clone, PartialEq, Eq)]
pub struct RawStopTime {
    pub trip_id: String,
    pub stop_id: String,
    pub pickup_type: PickupDropOffType,
    pub drop_off_type: PickupDropOffType,
}

/// A stop time of a linked trip.
#[derive(Debug, Clone, Copy, PartialEq, Eq, Structural, Hash)]
pub struct StopTime {
    /// Position of the stop in the model's list of stops.
    pub stop: usize,
    /// Seconds since the start of the service day.
    pub arrival_time: Option<u32>,
    /// Seconds since the start of the service day.
    pub departure_time: Option<u32>,
    pub stop_sequence: u32,
    /// Great-circle distance in millimetres from this stop to the stop of
    /// the trip's next stop time, where both have coordinates.
    pub distance_to_next: Option<u64>,
}

/// A trip with its stop times in order.
#[derive(Debug, Clone, PartialEq, Eq)]
pub struct Trip {
    pub id: String,
    pub service_id: String,
    pub route_id: String,
    pub stop_times: Vec<StopTime>,
    pub shape_id: Option<String>,
}

#[derive(Debug, Clone, PartialEq, Eq)]
pub struct Agency {
    pub id: Option<String>,
    pub name: String,
    pub url: String,
    pub timezone: String,
}

#[derive(Debug, Clone, PartialEq, Eq)]
pub struct Calendar {
    pub id: String,
    pub start_date: Date,
    pub end_date: Date,
}

#[derive(Debug, Clone, PartialEq, Eq)]
pub struct CalendarDate {
    pub service_id: String,
    pub date: Date,
    pub exception_type: Exception,
}

/// One point of a shape.
#[derive(Debug, Clone, PartialEq, Eq)]
pub struct Shape {
    pub id: String,
    /// In units of 1e-7 degree.
    pub latitude: i64,
    /// In units of 1e-7 degree.
    pub longitude: i64,
    pub sequence: usize,
}

#[derive(Debug, Clone, PartialEq, Eq)]
pub struct FareAttribute {
    pub id: String,
    pub price: String,
    pub currency: String,
    pub transfers: Transfers,
    /// In seconds.
    pub transfer_duration: Option<i64>,
}

#[derive(Debug, Clone, PartialEq, Eq)]
pub struct FareRule {
    pub fare_id: String,
}

#[derive(Debug, Clone, PartialEq, Eq)]
pub struct Transfer {
    pub from_stop_id: String,
    pub to_stop_id: String,
}

#[derive(Debug, Clone, PartialEq, Eq)]
pub struct Pathway {
    pub id: String,
}

#[derive(Debug, Clone, PartialEq, Eq)]
pub struct FeedInfo {
    pub name: String,
    pub url: String,
    pub lang: String,
    pub start_date: Option<Date>,
    pub end_date: Option<Date>,
    pub contact_email: Option<String>,
}

/// Why reading a file or building the model failed.
#[derive(Debug, Clone, Copy, PartialEq, Eq, Structural, Hash)]
pub enum ErrorKind {
    FileNotFound,
    CsvParse,
    MissingField,
    UnknownEnum,
    IoError,
}

/// The row at which decoding a file failed.
#[derive(Debug, Clone, PartialEq, Eq)]
pub struct CsvFailure {
    pub file_name: String,
    /// Line of the file, where the decoder knows it.
    pub line_number: Option<u64>,
    /// Headers and values of the line, where they were kept.
    pub line_in_error: Option<LineInError>,
}

#[derive(Debug, Clone, PartialEq, Eq)]
pub struct LineInError {
    pub headers: Vec<String>,
    pub values: Vec<String>,
}

/// A failure to read a file or to build the model.
#[derive(Debug, Clone, PartialEq, Eq)]
pub struct LoadError {
    pub kind: ErrorKind,
    /// What the failure says of itself.
    pub message: String,
    /// What the underlying failure says, if there is one.
    pub source: Option<String>,
    /// Set where the failure is that of decoding a row.
    pub csv: Option<CsvFailure>,
}

/// The outcome of reading one file of the feed.
#[derive(Debug, Clone, PartialEq, Eq)]
pub enum Table<T> {
    /// The file is not in the feed.
    Absent,
    /// The file is there and could not be read.
    Unreadable(LoadError),
    /// The rows of the file.
    Rows(Vec<T>),
}

impl<T> Table<T> {
    /// The rows that were read; none where the file is absent or unreadable.
    pub open spec fn rows(self) -> Seq<T> {
        match self {
            Table::Rows(v) => v@,
            _ => Seq::empty(),
        }
    }

    /// Whether the file was read.
    pub open spec fn is_readable(self) -> bool {
        self is Rows
    }

    /// Number of rows that were read.
    pub fn len(&self) -> (n: usize)
        ensures
            n == self.rows().len(),
    {
        match self {
            Table::Rows(v) => v.len(),
            _ => 0,
        }
    }
}

/// The feed as its files were read, each on its own.
#[derive(Debug, Clone, PartialEq, Eq)]
pub struct RawGtfs {
    /// Names of the files as the archive lists them.
    pub files: Vec<String>,
    pub agencies: Table<Agency>,
    pub routes: Table<Route>,
    pub stops: Table<Stop>,
    pub stop_times: Table<RawStopTime>,
    pub trips: Table<RawTrip>,
    pub calendar: Table<Calendar>,
    pub calendar_dates: Table<CalendarDate>,
    pub shapes: Table<Shape>,
    pub fare_attributes: Table<FareAttribute>,
    pub fare_rules: Table<FareRule>,
    pub transfers: Table<Transfer>,
    pub pathways: Table<Pathway>,
    pub feed_info: Table<FeedInfo>,
}

/// The calendar dates of one service.
#[derive(Debug, Clone, PartialEq, Eq)]
pub struct ServiceDates {
    pub service_id: String,
    pub dates: Vec<CalendarDate>,
}

/// The points of one shape.
#[derive(Debug, Clone, PartialEq, Eq)]
pub struct ShapeLine {
    pub id: String,
    pub points: Vec<Shape>,
}

/// The linked model: objects of the feed with their references resolved.
#[derive(Debug, Clone, PartialEq, Eq)]
pub struct Gtfs {
    pub stops: Vec<Stop>,
    pub routes: Vec<Route>,
    pub trips: Vec<Trip>,
    pub agencies: Vec<Agency>,
    pub calendar: Vec<Calendar>,
    pub calendar_dates: Vec<ServiceDates>,
    pub shapes: Vec<ShapeLine>,
    pub fare_attributes: Vec<FareAttribute>,
    pub feed_info: Vec<FeedInfo>,
}

impl Trip {
    /// Every stop time points at a stop among the first `stops` ones.
    pub open spec fn wf(self, stops: nat) -> bool {
        forall|k: int| 0 <= k < self.stop_times@.len() ==> (#[trigger] self.stop_times@[k]).stop < stops
    }
}

impl Gtfs {
    /// Every stop time of every trip points at a stop of the model.
    pub open spec fn wf(self) -> bool {
        forall|t: int| 0 <= t < self.trips@.len() ==> (#[trigger] self.trips@[t]).wf(self.stops@.len())
    }

    /// Whether every stop time of every trip points at a stop of the model.
    pub fn is_well_formed(&self) -> (r: bool)
        ensures
            r == self.wf(),
    {
        let n = self.stops.len();
        let mut t: usize = 0;
        while t < self.trips.len()
            invariant
                t <= self.trips@.len(),
                n == self.stops@.len(),
                forall|u: int| 0 <= u < t ==> (#[trigger] self.trips@[u]).wf(n as nat),
            decreases self.trips@.len() - t,
        {
            let trip = &self.trips[t];
            let mut k: usize = 0;
            while k < trip.stop_times.len()
                invariant
                    t < self.trips@.len(),
                    *trip == self.trips@[t as int],
                    n == self.stops@.len(),
                    k <= trip.stop_times@.len(),
                    forall|j: int| 0 <= j < k ==> (#[trigger] trip.stop_times@[j]).stop < n,
                decreases trip.stop_times@.len() - k,
            {
                if trip.stop_times[k].stop >= n {
                    assert(!self.trips@[t as int].wf(n as nat));
                    return false;
                }
                k += 1;
            }
            assert(self.trips@[t as int].wf(n as nat));
            t += 1;
        }
        true
    }
}

impl Stop {
    /// The position of the stop, where it has both coordinates.
    pub open spec fn position(self) -> Option<crate::issues::Position> {
        match (self.longitude, self.latitude) {
            (Some(lon), Some(lat)) => Some(crate::issues::Position { longitude: lon, latitude: lat }),
            _ => None,
        }
    }
}

impl Described for Stop {
    open spec fn described(&self) -> RelatedObjectView {
        RelatedObjectView { id: self.id@, object_type: Some(ObjectType::Stop), name: Some(self.name@) }
    }

    fn describe(&self) -> (r: RelatedObject) {
        RelatedObject {
            id: self.id.clone(),
            object_type: Some(ObjectType::Stop),
            name: Some(self.name.clone()),
        }
    }
}

impl Route {
    /// The name shown for the route: its long name, else its short name, else its id.
    pub open spec fn display_name(self) -> Seq<char> {
        match self.long_name {
            Some(l) => l@,
            None => match self.short_name {
                Some(s) => s@,
                None => self.id@,
            },
        }
    }
}

impl Described for Route {
    open spec fn described(&self) -> RelatedObjectView {
        RelatedObjectView {
            id: self.id@,
            object_type: Some(ObjectType::Route),
            name: Some(self.display_name()),
        }
    }

    fn describe(&self) -> (r: RelatedObject) {
        let name = match &self.long_name {
            Some(l) => l.clone(),
            None => match &self.short_name {
                Some(s) => s.clone(),
                None => self.id.clone(),
            },
        };
        RelatedObject { id: self.id.clone(), object_type: Some(ObjectType::Route), name: Some(name) }
    }
}

/// The name shown for a trip: its route and its service.
pub open spec fn trip_name(route_id: Seq<char>, service_id: Seq<char>) -> Seq<char> {
    "route id: "@ + route_id + ", service id: "@ + service_id
}

/// The name shown for a trip.
pub fn make_trip_name(route_id: &String, service_id: &String) -> (r: String)
    ensures
        r@ == trip_name(route_id@, service_id@),
{
    let mut r = str_to_string("route id: ");
    r = concat3(&r, route_id.as_str(), ", service id: ");
    let empty = String::new();
    r = concat3(&r, service_id.as_str(), empty.as_str());
    assert(r@ =~= trip_name(route_id@, service_id@));
    r
}

impl Described for Trip {
    open spec fn described(&self) -> RelatedObjectView {
        RelatedObjectView {
            id: self.id@,
            object_type: Some(ObjectType::Trip),
            name: Some(trip_name(self.route_id@, self.service_id@)),
        }
    }

    fn describe(&self) -> (r: RelatedObject) {
        RelatedObject {
            id: self.id.clone(),
            object_type: Some(ObjectType::Trip),
            name: Some(make_trip_name(&self.route_id, &self.service_id)),
        }
    }
}

impl Described for RawTrip {
    open spec fn described(&self) -> RelatedObjectView {
        RelatedObjectView {
            id: self.id@,
            object_type: Some(ObjectType::Trip),
            name: Some(trip_name(self.route_id@, self.service_id@)),
        }
    }

    fn describe(&self) -> (r: RelatedObject) {
        RelatedObject {
            id: self.id.clone(),
            object_type: Some(ObjectType::Trip),
            name: Some(make_trip_name(&self.route_id, &self.service_id)),
        }
    }
}

impl Agency {
    /// The id of the agency; empty where it has none.
    pub open spec fn id_text(self) -> Seq<char> {
        match self.id {
            Some(i) => i@,
            None => Seq::empty(),
        }
    }
}

impl Described for Agency {
    open spec fn described(&self) -> RelatedObjectView {
        RelatedObjectView {
            id: self.id_text(),
            object_type: Some(ObjectType::Agency),
            name: Some(self.name@),
        }
    }

    fn describe(&self) -> (r: RelatedObject) {
        let id = match &self.id {
            Some(i) => i.clone(),
            None => String::new(),
        };
        RelatedObject { id, object_type: Some(ObjectType::Agency), name: Some(self.name.clone()) }
    }
}

/// The name shown for a calendar: its two dates around a dash, where both
/// can be written.
pub open spec fn calendar_name(start: Date, end: Date) -> Option<Seq<char>> {
    match (date_text(start.days), date_text(end.days)) {
        (Some(s), Some(e)) => Some(s + "—"@ + e),
        _ => None,
    }
}

impl Described for Calendar {
    open spec fn described(&self) -> RelatedObjectView {
        RelatedObjectView {
            id: self.id@,
            object_type: Some(ObjectType::Calendar),
            name: calendar_name(self.start_date, self.end_date),
        }
    }

    fn describe(&self) -> (r: RelatedObject) {
        let name = match (format_date(self.start_date.days), format_date(self.end_date.days)) {
            (Some(s), Some(e)) => Some(concat3(&s, "—", e.as_str())),
            _ => None,
        };
        RelatedObject { id: self.id.clone(), object_type: Some(ObjectType::Calendar), name }
    }
}

impl Described for Pathway {
    open spec fn described(&self) -> RelatedObjectView {
        RelatedObjectView { id: self.id@, object_type: Some(ObjectType::Pathway), name: None }
    }

    fn describe(&self) -> (r: RelatedObject) {
        RelatedObject { id: self.id.clone(), object_type: Some(ObjectType::Pathway), name: None }
    }
}

impl Described for FareAttribute {
    open spec fn described(&self) -> RelatedObjectView {
        RelatedObjectView { id: self.id@, object_type: Some(ObjectType::Fare), name: None }
    }

    fn describe(&self) -> (r: RelatedObject) {
        RelatedObject { id: self.id.clone(), object_type: Some(ObjectType::Fare), name: None }
    }
}

impl CsvFailure {
    /// The line that failed, where both its number and its content are known.
    pub open spec fn line(self) -> Option<crate::issues::RelatedLineView> {
        match (self.line_number, self.line_in_error) {
            (Some(n), Some(l)) => Some(crate::issues::RelatedLineView {
                line_number: n,
                headers: crate::issues::texts(l.headers@),
                values: crate::issues::texts(l.values@),
            }),
            _ => None,
        }
    }
}

} // verus!
