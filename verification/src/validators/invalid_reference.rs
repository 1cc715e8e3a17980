//! References between the files of a feed that point at nothing.
//!
//! Six relationships are checked: the trip and the stop of a stop time,
//! the service and the route of a trip, the agency of a route, and the
//! parent station of a stop. Each missing id is reported once for each
//! relationship, at its first use. A relationship whose target file could
//! not be read is not checked.
use vstd::prelude::*;
use crate::collect::{extend, gather, holds, lemma_gather_step, lemma_views_empty, one, push_one, shown, views};
use crate::issues::{Described, Issue, IssueType, IssueView, ObjectType, RelatedObject, RelatedObjectView, Severity, texts};
use crate::model::{Agency, Calendar, CalendarDate, RawGtfs, RawStopTime, RawTrip, Route, Stop, Table};
use crate::collect::places;

verus! {

/// One use of an id: the id, and the object that uses it where the issue
/// is to name it.
#[derive(Debug, Clone, PartialEq, Eq)]
pub struct Reference {
    pub id: String,
    pub from: Option<RelatedObject>,
}

/// What a [`Reference`] holds.
pub ghost struct ReferenceView {
    pub id: Seq<char>,
    pub from: Option<RelatedObjectView>,
}

impl View for Reference {
    type V = ReferenceView;

    open spec fn view(&self) -> ReferenceView {
        ReferenceView {
            id: self.id@,
            from: match self.from {
                Some(o) => Some(o@),
                None => None,
            },
        }
    }
}

pub proof fn lemma_reference_push(v: Seq<Reference>, t: Seq<ReferenceView>, i: int, x: Reference)
    requires
        0 <= i < t.len(),
        reference_views(v) == t.take(i),
        x@ == t[i],
    ensures
        reference_views(v.push(x)) == t.take(i + 1),
{
    assert(reference_views(v.push(x)) =~= reference_views(v).push(x@));
    crate::collect::lemma_take_push(reference_views(v), t, i, x@);
}

/// Views of a list of references.
pub open spec fn reference_views(v: Seq<Reference>) -> Seq<ReferenceView> {
    v.map_values(|r: Reference| r@)
}

/// The ids of each kind of object that the feed has, for the files that
/// could be read; `None` for a kind whose file could not.
pub struct Ids {
    pub trips: Option<Vec<String>>,
    pub stops: Option<Vec<String>>,
    pub routes: Option<Vec<String>>,
    pub calendars: Option<Vec<String>>,
    pub agencies: Option<Vec<String>>,
}

/// Texts of an optional list of ids.
pub open spec fn known(ids: Option<Vec<String>>) -> Option<Seq<Seq<char>>> {
    match ids {
        Some(v) => Some(texts(v@)),
        None => None,
    }
}

/// Ids of the described objects, in order.
pub open spec fn ids_of<T: Described>(rows: Seq<T>) -> Seq<Seq<char>> {
    Seq::new(rows.len(), |i: int| rows[i].described().id)
}

/// Ids of the rows of a file, where it could be read.
pub open spec fn table_ids<T: Described>(table: Table<T>) -> Option<Seq<Seq<char>>> {
    if table.is_readable() {
        Some(ids_of(table.rows()))
    } else {
        None
    }
}

/// Service ids of the calendar dates, in order.
pub open spec fn service_ids(rows: Seq<CalendarDate>) -> Seq<Seq<char>> {
    Seq::new(rows.len(), |i: int| rows[i].service_id@)
}

/// Ids of the services: those of the calendar, then those of the calendar
/// dates, of the files that could be read; `None` where neither could.
pub open spec fn calendar_ids(calendar: Table<Calendar>, dates: Table<CalendarDate>) -> Option<Seq<Seq<char>>> {
    if calendar.is_readable() || dates.is_readable() {
        Some(ids_of(calendar.rows()) + service_ids(dates.rows()))
    } else {
        None
    }
}

/// What an [`Ids`] holds: for each kind of object the ids that the feed
/// has, `None` for a kind whose file could not be read.
pub ghost struct Known {
    pub trips: Option<Seq<Seq<char>>>,
    pub stops: Option<Seq<Seq<char>>>,
    pub routes: Option<Seq<Seq<char>>>,
    pub calendars: Option<Seq<Seq<char>>>,
    pub agencies: Option<Seq<Seq<char>>>,
}

impl Known {
    /// The ids of a kind of object, where that kind can be referred to.
    pub open spec fn of(self, object_type: ObjectType) -> Option<Seq<Seq<char>>> {
        match object_type {
            ObjectType::Trip => self.trips,
            ObjectType::Stop => self.stops,
            ObjectType::Route => self.routes,
            ObjectType::Calendar => self.calendars,
            ObjectType::Agency => self.agencies,
            _ => None,
        }
    }
}

/// The ids of a feed.
pub open spec fn known_of(raw: RawGtfs) -> Known {
    Known {
        trips: table_ids(raw.trips),
        stops: table_ids(raw.stops),
        routes: table_ids(raw.routes),
        calendars: calendar_ids(raw.calendar, raw.calendar_dates),
        agencies: table_ids(raw.agencies),
    }
}

impl View for Ids {
    type V = Known;

    open spec fn view(&self) -> Known {
        Known {
            trips: known(self.trips),
            stops: known(self.stops),
            routes: known(self.routes),
            calendars: known(self.calendars),
            agencies: known(self.agencies),
        }
    }
}

impl Ids {
    /// The ids of the feed.
    pub fn new(raw_gtfs: &RawGtfs) -> (r: Ids)
        ensures
            r@ == known_of(*raw_gtfs),
    {
        let calendars = match (&raw_gtfs.calendar, &raw_gtfs.calendar_dates) {
            (Table::Rows(_), _) | (_, Table::Rows(_)) => {
                let mut ids = match get_ids(&raw_gtfs.calendar) {
                    Some(v) => v,
                    None => Vec::new(),
                };
                let ghost first = texts(ids@);
                assert(first =~= ids_of(raw_gtfs.calendar.rows()));
                match &raw_gtfs.calendar_dates {
                    Table::Rows(dates) => {
                        let mut i: usize = 0;
                        while i < dates.len()
                            invariant
                                i <= dates@.len(),
                                texts(ids@) == first + service_ids(dates@).take(i as int),
                            decreases dates@.len() - i,
                        {
                            let id = dates[i].service_id.clone();
                            proof {
                                crate::collect::lemma_texts_push(ids@, id);
                                assert((first + service_ids(dates@).take(i as int)).push(id@) =~= first + service_ids(dates@).take(
                                    i + 1,
                                ));
                            }
                            ids.push(id);
                            i += 1;
                        }
                        assert(service_ids(dates@).take(i as int) =~= service_ids(dates@));
                    },
                    _ => {
                        assert(texts(ids@) =~= first + service_ids(raw_gtfs.calendar_dates.rows()));
                    },
                }
                Some(ids)
            },
            _ => None,
        };
        Ids {
            trips: get_ids(&raw_gtfs.trips),
            stops: get_ids(&raw_gtfs.stops),
            routes: get_ids(&raw_gtfs.routes),
            calendars,
            agencies: get_ids(&raw_gtfs.agencies),
        }
    }

    /// The issue on a reference to an object of a kind, where the feed has
    /// the ids of that kind and this id is not among them.
    pub fn check_ref(&self, id: &str, object_type: ObjectType) -> (r: Option<Issue>)
        ensures
            shown(r) == dangling(self@.of(object_type), id@, object_type),
    {
        let ids = match object_type {
            ObjectType::Trip => &self.trips,
            ObjectType::Stop => &self.stops,
            ObjectType::Route => &self.routes,
            ObjectType::Calendar => &self.calendars,
            ObjectType::Agency => &self.agencies,
            _ => {
                return None;
            },
        };
        match ids {
            Some(v) => {
                if contains(v, id) {
                    None
                } else {
                    Some(Issue::new(Severity::Fatal, IssueType::InvalidReference, id).object_type(object_type))
                }
            },
            None => None,
        }
    }
}

/// The issue on an id that is not among the known ones of its kind.
pub open spec fn dangling(ids: Option<Seq<Seq<char>>>, id: Seq<char>, object_type: ObjectType) -> Option<IssueView> {
    match ids {
        Some(v) => if holds(v, id) {
            None
        } else {
            Some(IssueView::bare(Severity::Fatal, IssueType::InvalidReference, id).with_object_type(object_type))
        },
        None => None,
    }
}

/// Ids of the rows of a file, where it could be read.
pub fn get_ids<T: Described>(objects: &Table<T>) -> (r: Option<Vec<String>>)
    ensures
        known(r) == table_ids(*objects),
{
    match objects {
        Table::Rows(rows) => {
            let mut ids: Vec<String> = Vec::new();
            let mut i: usize = 0;
            while i < rows.len()
                invariant
                    i <= rows@.len(),
                    texts(ids@) == ids_of(rows@).take(i as int),
                decreases rows@.len() - i,
            {
                let d = rows[i].describe();
                proof {
                    crate::collect::lemma_texts_push(ids@, d.id);
                    crate::collect::lemma_take_push(texts(ids@), ids_of(rows@), i as int, d.id@);
                }
                ids.push(d.id);
                i += 1;
            }
            assert(ids_of(rows@).take(i as int) =~= ids_of(rows@));
            Some(ids)
        },
        _ => None,
    }
}

fn contains(ids: &Vec<String>, id: &str) -> (r: bool)
    ensures
        r == holds(texts(ids@), id@),
{
    let mut k: usize = 0;
    while k < ids.len()
        invariant
            k <= ids@.len(),
            forall|j: int| 0 <= j < k ==> #[trigger] texts(ids@)[j] != id@,
        decreases ids@.len() - k,
    {
        assert(texts(ids@)[k as int] == ids@[k as int]@);
        if crate::collect::same_text(ids[k].as_str(), id) {
            return true;
        }
        k += 1;
    }
    false
}

/// Whether the reference at place `i` is the first use of its id.
pub open spec fn first_use(refs: Seq<ReferenceView>, i: int) -> bool {
    forall|j: int| 0 <= j < i ==> (#[trigger] refs[j]).id != refs[i].id
}

/// The issue on the reference at place `i`: it is the first use of an id
/// that is not among the known ones; the issue says what the relationship
/// is and names the object that uses the id, where there is one.
pub open spec fn broken(refs: Seq<ReferenceView>, ids: Option<Seq<Seq<char>>>, object_type: ObjectType, details: Seq<char>, i: int) -> Option<IssueView> {
    match dangling(ids, refs[i].id, object_type) {
        Some(issue) => if first_use(refs, i) {
            match refs[i].from {
                Some(o) => Some(issue.with_details(details).with_related(o)),
                None => Some(issue.with_details(details)),
            }
        } else {
            None
        },
        None => None,
    }
}

pub open spec fn broken_of(refs: Seq<ReferenceView>, ids: Option<Seq<Seq<char>>>, object_type: ObjectType, details: Seq<char>) -> spec_fn(int) -> Seq<IssueView> {
    |i: int| one(broken(refs, ids, object_type, details, i))
}

/// The issues of one relationship, reference by reference.
pub open spec fn relationship_issues(refs: Seq<ReferenceView>, ids: Option<Seq<Seq<char>>>, object_type: ObjectType, details: Seq<char>) -> Seq<IssueView> {
    gather(places(refs.len()), broken_of(refs, ids, object_type, details))
}

/// The issues of one relationship.
pub fn check_references(ids: &Ids, refs: Vec<Reference>, object_type: ObjectType, details: &str) -> (r: Vec<Issue>)
    ensures
        views(r@) == relationship_issues(reference_views(refs@), ids@.of(object_type), object_type, details@),
{
    let ghost rv = reference_views(refs@);
    let ghost known_ids = ids@.of(object_type);
    let n = refs.len();
    let mut out: Vec<Issue> = Vec::new();
    proof {
        lemma_views_empty();
        assert(places(n as nat).take(0) =~= Seq::empty());
    }
    let mut i: usize = 0;
    while i < n
        invariant
            n == refs@.len(),
            rv == reference_views(refs@),
            known_ids == ids@.of(object_type),
            i <= n,
            views(out@) == gather(places(n as nat).take(i as int), broken_of(rv, known_ids, object_type, details@)),
        decreases n - i,
    {
        proof {
            lemma_gather_step(places(n as nat), i as int, broken_of(rv, known_ids, object_type, details@));
            assert(rv[i as int] == refs@[i as int]@);
        }
        let reference = &refs[i];
        let found = match ids.check_ref(reference.id.as_str(), object_type) {
            Some(issue) => {
                let mut first = true;
                let mut j: usize = 0;
                while j < i && first
                    invariant
                        j <= i,
                        i < refs@.len(),
                        rv == reference_views(refs@),
                        *reference == refs@[i as int],
                        first ==> forall|k: int| 0 <= k < j ==> (#[trigger] rv[k]).id != rv[i as int].id,
                        !first ==> !first_use(rv, i as int),
                    decreases i - j + if first { 1int } else { 0int },
                {
                    assert(rv[j as int] == refs@[j as int]@);
                    assert(rv[i as int] == refs@[i as int]@);
                    if refs[j].id == reference.id {
                        first = false;
                    } else {
                        j += 1;
                    }
                }
                if first {
                    let mut issue = issue.details(details);
                    match &reference.from {
                        Some(o) => {
                            issue.related_objects.push(clone_related(o));
                            assert(issue@.related_objects =~= Seq::<RelatedObjectView>::empty().push(o@));
                        },
                        None => {},
                    }
                    Some(issue)
                } else {
                    None
                }
            },
            None => None,
        };
        push_one(&mut out, found);
        i += 1;
    }
    assert(places(n as nat).take(n as int) =~= places(n as nat));
    out
}

fn clone_related(o: &RelatedObject) -> (r: RelatedObject)
    ensures
        r@ == o@,
{
    RelatedObject {
        id: o.id.clone(),
        object_type: o.object_type,
        name: match &o.name {
            Some(n) => Some(n.clone()),
            None => None,
        },
    }
}

/// The trips that the stop times use.
pub open spec fn stop_time_trips(rows: Seq<RawStopTime>) -> Seq<ReferenceView> {
    Seq::new(rows.len(), |i: int| ReferenceView { id: rows[i].trip_id@, from: None })
}

/// The stops that the stop times use.
pub open spec fn stop_time_stops(rows: Seq<RawStopTime>) -> Seq<ReferenceView> {
    Seq::new(rows.len(), |i: int| ReferenceView { id: rows[i].stop_id@, from: None })
}

/// The services that the trips use.
pub open spec fn trip_services(rows: Seq<RawTrip>) -> Seq<ReferenceView> {
    Seq::new(rows.len(), |i: int| ReferenceView { id: rows[i].service_id@, from: Some(rows[i].described()) })
}

/// The routes that the trips use.
pub open spec fn trip_routes(rows: Seq<RawTrip>) -> Seq<ReferenceView> {
    Seq::new(rows.len(), |i: int| ReferenceView { id: rows[i].route_id@, from: Some(rows[i].described()) })
}

/// The agency that a route uses, where it names one.
pub open spec fn route_agency(route: Route) -> Seq<ReferenceView> {
    match route.agency_id {
        Some(a) => seq![ReferenceView { id: a@, from: Some(route.described()) }],
        None => Seq::empty(),
    }
}

pub open spec fn route_agency_of() -> spec_fn(Route) -> Seq<ReferenceView> {
    |r: Route| route_agency(r)
}

/// The parent station that a stop uses, where it names one.
pub open spec fn stop_parent(stop: Stop) -> Seq<ReferenceView> {
    match stop.parent_station {
        Some(p) => seq![ReferenceView { id: p@, from: Some(stop.described()) }],
        None => Seq::empty(),
    }
}

pub open spec fn stop_parent_of() -> spec_fn(Stop) -> Seq<ReferenceView> {
    |s: Stop| stop_parent(s)
}

/// The issues on the trips and the stops that the stop times use.
pub open spec fn stop_time_issues(ids: Known, rows: Seq<RawStopTime>) -> Seq<IssueView> {
    relationship_issues(
        stop_time_trips(rows),
        ids.of(ObjectType::Trip),
        ObjectType::Trip,
        "The trip is referenced by a stop time but does not exist"@,
    ) + relationship_issues(
        stop_time_stops(rows),
        ids.of(ObjectType::Stop),
        ObjectType::Stop,
        "The stop is referenced by a stop time but does not exist"@,
    )
}

/// The issues on the services and the routes that the trips use.
pub open spec fn trip_issues(ids: Known, rows: Seq<RawTrip>) -> Seq<IssueView> {
    relationship_issues(
        trip_services(rows),
        ids.of(ObjectType::Calendar),
        ObjectType::Calendar,
        "The service is referenced by a trip but does not exist"@,
    ) + relationship_issues(
        trip_routes(rows),
        ids.of(ObjectType::Route),
        ObjectType::Route,
        "The route is referenced by a trip but does not exist"@,
    )
}

/// The issues on the agencies that the routes use.
pub open spec fn route_issues(ids: Known, rows: Seq<Route>) -> Seq<IssueView> {
    relationship_issues(
        gather(rows, route_agency_of()),
        ids.of(ObjectType::Agency),
        ObjectType::Agency,
        "The agency is referenced by a route but does not exist"@,
    )
}

/// The issues on the parent stations that the stops use.
pub open spec fn stop_issues(ids: Known, rows: Seq<Stop>) -> Seq<IssueView> {
    relationship_issues(
        gather(rows, stop_parent_of()),
        ids.of(ObjectType::Stop),
        ObjectType::Stop,
        "The stop is referenced as a stop's parent_station but does not exist"@,
    )
}

impl Ids {
    /// The issues on the trips and the stops that the stop times use.
    pub fn check_stop_times(&self, stop_times: &Table<RawStopTime>) -> (r: Vec<Issue>)
        ensures
            views(r@) == stop_time_issues(self@, stop_times.rows()),
    {
        let mut trips: Vec<Reference> = Vec::new();
        let mut stops: Vec<Reference> = Vec::new();
        match stop_times {
            Table::Rows(rows) => {
                let mut i: usize = 0;
                while i < rows.len()
                    invariant
                        i <= rows@.len(),
                        reference_views(trips@) == stop_time_trips(rows@).take(i as int),
                        reference_views(stops@) == stop_time_stops(rows@).take(i as int),
                    decreases rows@.len() - i,
                {
                    let a = Reference { id: rows[i].trip_id.clone(), from: None };
                    let b = Reference { id: rows[i].stop_id.clone(), from: None };
                    proof {
                        lemma_reference_push(trips@, stop_time_trips(rows@), i as int, a);
                        lemma_reference_push(stops@, stop_time_stops(rows@), i as int, b);
                    }
                    trips.push(a);
                    stops.push(b);
                    i += 1;
                }
                assert(stop_time_trips(rows@).take(i as int) =~= stop_time_trips(rows@));
                assert(stop_time_stops(rows@).take(i as int) =~= stop_time_stops(rows@));
            },
            _ => {
                assert(reference_views(trips@) =~= stop_time_trips(stop_times.rows()));
                assert(reference_views(stops@) =~= stop_time_stops(stop_times.rows()));
            },
        }
        let mut out = check_references(
            self,
            trips,
            ObjectType::Trip,
            "The trip is referenced by a stop time but does not exist",
        );
        extend(
            &mut out,
            check_references(self, stops, ObjectType::Stop, "The stop is referenced by a stop time but does not exist"),
        );
        out
    }

    /// The issues on the services and the routes that the trips use.
    pub fn check_trips(&self, trips: &Table<RawTrip>) -> (r: Vec<Issue>)
        ensures
            views(r@) == trip_issues(self@, trips.rows()),
    {
        let mut services: Vec<Reference> = Vec::new();
        let mut routes: Vec<Reference> = Vec::new();
        match trips {
            Table::Rows(rows) => {
                let mut i: usize = 0;
                while i < rows.len()
                    invariant
                        i <= rows@.len(),
                        reference_views(services@) == trip_services(rows@).take(i as int),
                        reference_views(routes@) == trip_routes(rows@).take(i as int),
                    decreases rows@.len() - i,
                {
                    let a = Reference { id: rows[i].service_id.clone(), from: Some(rows[i].describe()) };
                    let b = Reference { id: rows[i].route_id.clone(), from: Some(rows[i].describe()) };
                    proof {
                        lemma_reference_push(services@, trip_services(rows@), i as int, a);
                        lemma_reference_push(routes@, trip_routes(rows@), i as int, b);
                    }
                    services.push(a);
                    routes.push(b);
                    i += 1;
                }
                assert(trip_services(rows@).take(i as int) =~= trip_services(rows@));
                assert(trip_routes(rows@).take(i as int) =~= trip_routes(rows@));
            },
            _ => {
                assert(reference_views(services@) =~= trip_services(trips.rows()));
                assert(reference_views(routes@) =~= trip_routes(trips.rows()));
            },
        }
        let mut out = check_references(
            self,
            services,
            ObjectType::Calendar,
            "The service is referenced by a trip but does not exist",
        );
        extend(
            &mut out,
            check_references(self, routes, ObjectType::Route, "The route is referenced by a trip but does not exist"),
        );
        out
    }

    /// The issues on the agencies that the routes use.
    pub fn check_routes(&self, routes: &Table<Route>) -> (r: Vec<Issue>)
        ensures
            views(r@) == route_issues(self@, routes.rows()),
    {
        let mut refs: Vec<Reference> = Vec::new();
        assert(reference_views(refs@) =~= Seq::<ReferenceView>::empty());
        match routes {
            Table::Rows(rows) => {
                assert(rows@.take(0) =~= Seq::empty());
                let mut i: usize = 0;
                while i < rows.len()
                    invariant
                        i <= rows@.len(),
                        reference_views(refs@) == gather(rows@.take(i as int), route_agency_of()),
                    decreases rows@.len() - i,
                {
                    proof {
                        lemma_gather_step(rows@, i as int, route_agency_of());
                    }
                    let ghost before = reference_views(refs@);
                    match &rows[i].agency_id {
                        Some(a) => {
                            refs.push(Reference { id: a.clone(), from: Some(rows[i].describe()) });
                            assert(reference_views(refs@) =~= before + route_agency(rows@[i as int]));
                        },
                        None => {
                            assert(reference_views(refs@) =~= before + route_agency(rows@[i as int]));
                        },
                    }
                    i += 1;
                }
                assert(rows@.take(i as int) =~= rows@);
            },
            _ => {},
        }
        check_references(self, refs, ObjectType::Agency, "The agency is referenced by a route but does not exist")
    }

    /// The issues on the parent stations that the stops use.
    pub fn check_stops(&self, stops: &Table<Stop>) -> (r: Vec<Issue>)
        ensures
            views(r@) == stop_issues(self@, stops.rows()),
    {
        let mut refs: Vec<Reference> = Vec::new();
        assert(reference_views(refs@) =~= Seq::<ReferenceView>::empty());
        match stops {
            Table::Rows(rows) => {
                assert(rows@.take(0) =~= Seq::empty());
                let mut i: usize = 0;
                while i < rows.len()
                    invariant
                        i <= rows@.len(),
                        reference_views(refs@) == gather(rows@.take(i as int), stop_parent_of()),
                    decreases rows@.len() - i,
                {
                    proof {
                        lemma_gather_step(rows@, i as int, stop_parent_of());
                    }
                    let ghost before = reference_views(refs@);
                    match &rows[i].parent_station {
                        Some(p) => {
                            refs.push(Reference { id: p.clone(), from: Some(rows[i].describe()) });
                            assert(reference_views(refs@) =~= before + stop_parent(rows@[i as int]));
                        },
                        None => {
                            assert(reference_views(refs@) =~= before + stop_parent(rows@[i as int]));
                        },
                    }
                    i += 1;
                }
                assert(rows@.take(i as int) =~= rows@);
            },
            _ => {},
        }
        check_references(
            self,
            refs,
            ObjectType::Stop,
            "The stop is referenced as a stop's parent_station but does not exist",
        )
    }
}

/// The issues on references: those of the stop times, of the trips, of
/// the routes and of the stops, with the ids of the feed.
pub open spec fn reference_issues(ids: Known, raw: RawGtfs) -> Seq<IssueView> {
    stop_time_issues(ids, raw.stop_times.rows()) + trip_issues(ids, raw.trips.rows()) + route_issues(
        ids,
        raw.routes.rows(),
    ) + stop_issues(ids, raw.stops.rows())
}

/// The issues on references that point at nothing.
pub fn validate(raw_gtfs: &RawGtfs) -> (r: Vec<Issue>)
    ensures
        views(r@) == reference_issues(known_of(*raw_gtfs), *raw_gtfs),
{
    let id_container = Ids::new(raw_gtfs);
    let mut out = id_container.check_stop_times(&raw_gtfs.stop_times);
    extend(&mut out, id_container.check_trips(&raw_gtfs.trips));
    extend(&mut out, id_container.check_routes(&raw_gtfs.routes));
    extend(&mut out, id_container.check_stops(&raw_gtfs.stops));
    out
}

} // verus!
