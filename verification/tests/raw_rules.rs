use chrono::Datelike;
use std::collections::HashMap;
use validator::custom_rules::{custom_rules, CustomRules};
use validator::daemon::{max_size_of, run_server};
use validator::dates::Interval;
use validator::issues::{Issue, IssueType, ObjectType, RelatedFile, RelatedLine, RelatedObject, Severity};
use validator::metadatas::{compute_stats, counts_objects, extract_metadata, Stats};
use validator::model::{
    Agency, Availability, BikesAllowedType, Calendar, CalendarDate, Color, CsvFailure, Date, ErrorKind, Exception,
    FareAttribute, FareRule, FeedInfo, Gtfs, LineInError, LoadError, LocationType, Pathway, PickupDropOffType, RawGtfs,
    RawStopTime, RawTrip, Route, RouteType, ServiceDates, Shape, Stop, StopTime, Table, Transfers, Trip,
};
use validator::validate::{process, validate_and_metadata, Linked, Response};
use validator::validators::{file_presence, invalid_reference, raw_gtfs, sub_folder};

fn day(year: i32, month: u32, day: u32) -> Date {
    Date { days: chrono::NaiveDate::from_ymd_opt(year, month, day).unwrap().num_days_from_ce() }
}

fn files(names: &[&str]) -> Vec<String> {
    names.iter().map(|n| n.to_string()).collect()
}

fn empty_raw() -> RawGtfs {
    RawGtfs {
        files: files(&["agency.txt", "routes.txt", "stops.txt", "stop_times.txt", "trips.txt"]),
        agencies: Table::Rows(vec![]),
        routes: Table::Rows(vec![]),
        stops: Table::Rows(vec![]),
        stop_times: Table::Rows(vec![]),
        trips: Table::Rows(vec![]),
        calendar: Table::Absent,
        calendar_dates: Table::Absent,
        shapes: Table::Absent,
        fare_attributes: Table::Absent,
        fare_rules: Table::Absent,
        transfers: Table::Absent,
        pathways: Table::Absent,
        feed_info: Table::Absent,
    }
}

fn empty_gtfs() -> Gtfs {
    Gtfs {
        stops: vec![],
        routes: vec![],
        trips: vec![],
        agencies: vec![],
        calendar: vec![],
        calendar_dates: vec![],
        shapes: vec![],
        fare_attributes: vec![],
        feed_info: vec![],
    }
}

fn stop(id: &str, name: &str, location_type: LocationType) -> Stop {
    Stop {
        id: id.to_owned(),
        name: name.to_owned(),
        location_type,
        parent_station: None,
        longitude: Some(24_491_860),
        latitude: Some(487_960_580),
        wheelchair_boarding: Availability::InformationNotAvailable,
    }
}

fn route(id: &str, long_name: Option<&str>, short_name: Option<&str>) -> Route {
    Route {
        id: id.to_owned(),
        short_name: short_name.map(|n| n.to_owned()),
        long_name: long_name.map(|n| n.to_owned()),
        route_type: RouteType::Bus,
        agency_id: None,
        color: Color { r: 255, g: 255, b: 255 },
        text_color: Color { r: 0, g: 0, b: 0 },
    }
}

fn raw_trip(id: &str, route_id: &str, service_id: &str) -> RawTrip {
    RawTrip {
        id: id.to_owned(),
        service_id: service_id.to_owned(),
        route_id: route_id.to_owned(),
        shape_id: None,
        trip_headsign: None,
        wheelchair_accessible: Availability::InformationNotAvailable,
        bikes_allowed: BikesAllowedType::NoBikeInfo,
    }
}

fn raw_stop_time(trip_id: &str, stop_id: &str) -> RawStopTime {
    RawStopTime {
        trip_id: trip_id.to_owned(),
        stop_id: stop_id.to_owned(),
        pickup_type: PickupDropOffType::Regular,
        drop_off_type: PickupDropOffType::Regular,
    }
}

fn agency_of(id: Option<&str>, name: &str) -> Agency {
    Agency {
        id: id.map(|i| i.to_owned()),
        name: name.to_owned(),
        url: "http://www.example.com".to_owned(),
        timezone: "Europe/Paris".to_owned(),
    }
}

fn calendar(id: &str, start: Date, end: Date) -> Calendar {
    Calendar { id: id.to_owned(), start_date: start, end_date: end }
}

fn fare(id: &str) -> FareAttribute {
    FareAttribute {
        id: id.to_owned(),
        price: "1.50".to_owned(),
        currency: "EUR".to_owned(),
        transfers: Transfers::Unlimited,
        transfer_duration: None,
    }
}

fn point(id: &str, sequence: usize) -> Shape {
    Shape { id: id.to_owned(), latitude: 366_410_000, longitude: -1_168_170_000, sequence }
}

fn feed(name: &str, email: Option<&str>, start: Option<Date>, end: Option<Date>) -> FeedInfo {
    FeedInfo {
        name: name.to_owned(),
        url: "http://www.example.com".to_owned(),
        lang: "fr".to_owned(),
        start_date: start,
        end_date: end,
        contact_email: email.map(|e| e.to_owned()),
    }
}

fn as_map(pairs: &[(String, String)]) -> HashMap<String, String> {
    pairs.iter().cloned().collect()
}

fn linked(gtfs: Gtfs) -> Result<Linked, LoadError> {
    Ok(Linked { gtfs, close_pairs: vec![] })
}

fn failure(message: &str) -> LoadError {
    LoadError { kind: ErrorKind::IoError, message: message.to_owned(), source: None, csv: None }
}

fn missing_mandatory_files_fixture() -> RawGtfs {
    RawGtfs {
        files: files(&["agency.txt", "routes.txt", "stops.txt", "trips.txt", "pathways.txt", "extra_file.txt"]),
        stop_times: Table::Unreadable(LoadError {
            kind: ErrorKind::FileNotFound,
            message: "stop_times.txt".to_owned(),
            source: None,
            csv: None,
        }),
        pathways: Table::Rows(vec![Pathway { id: "pathway1".to_owned() }]),
        ..empty_raw()
    }
}

#[test]
fn file_presence_test_missing() {
    let raw = missing_mandatory_files_fixture();
    let validations = file_presence::missing_files(&raw);
    assert_eq!(1, validations.len());
    assert_eq!(IssueType::MissingMandatoryFile, validations[0].issue_type);
    assert_eq!("stop_times.txt", validations[0].object_id);
    assert_eq!(Severity::Fatal, validations[0].severity);
    assert_eq!(Some("The mandatory file was not found".to_string()), validations[0].details);
}

#[test]
fn test_extra() {
    let raw = missing_mandatory_files_fixture();
    let validations = file_presence::extra_files(&raw);
    assert_eq!(1, validations.len());
    assert_eq!(IssueType::ExtraFile, validations[0].issue_type);
    assert_eq!(Severity::Information, validations[0].severity);
    assert_eq!("extra_file.txt", validations[0].object_id);
}

#[test]
fn files_are_matched_by_the_end_of_their_name() {
    let raw = RawGtfs {
        files: files(&["gtfs/agency.txt", "gtfs/routes.txt", "gtfs/stops.txt", "gtfs/stop_times.txt", "gtfs/trips.txt", "gtfs/locations.geojson"]),
        ..empty_raw()
    };
    assert!(file_presence::validate(&raw).is_empty());
}

#[test]
fn empty_archive_lacks_every_mandatory_file() {
    let raw = RawGtfs { files: vec![], ..empty_raw() };
    let issues = file_presence::validate(&raw);
    let ids: Vec<&str> = issues.iter().map(|i| i.object_id.as_str()).collect();
    assert_eq!(vec!["agency.txt", "routes.txt", "stops.txt", "stop_times.txt", "trips.txt"], ids);
    assert!(issues.iter().all(|i| i.severity == Severity::Fatal && i.issue_type == IssueType::MissingMandatoryFile));
}

#[test]
fn valid_layout() {
    let issues = sub_folder::validate(&empty_raw());

    assert_eq!(Vec::<Issue>::new(), issues);
}

#[test]
fn valid_zip_layout() {
    // the names as a zip archive lists them, the directory entry included
    let raw = RawGtfs { files: files(&["", "agency.txt", "routes.txt", "stops.txt", "stop_times.txt", "trips.txt"]), ..empty_raw() };
    let issues = sub_folder::validate(&raw);

    assert_eq!(Vec::<Issue>::new(), issues);
}

#[test]
fn invalid_zip_layout() {
    let raw = RawGtfs {
        files: files(&["gtfs/", "gtfs/agency.txt", "gtfs/routes.txt", "gtfs/stops.txt", "gtfs/stop_times.txt", "gtfs/trips.txt"]),
        ..empty_raw()
    };

    let issues = sub_folder::validate(&raw);

    assert_eq!(1, issues.len());
    let first_issue = &issues[0];
    assert_eq!(IssueType::SubFolder, first_issue.issue_type);
    assert_eq!(Severity::Error, first_issue.severity);
    assert_eq!("gtfs", first_issue.object_id);
    assert_eq!(Some("Data is contained in a subfolder: gtfs".to_string()), first_issue.details);
    assert_eq!(None, first_issue.object_type);
    assert!(first_issue.related_objects.is_empty());
}

#[test]
fn test_duplicates() {
    // in the dataset, every last line has been duplicated
    let mut shapes: Vec<Shape> = vec![point("A_shp", 0), point("A_shp", 0), point("B_shp", 0), point("many_dup_shp", 1)];
    for sequence in 2..=12 {
        shapes.push(point("many_dup_shp", sequence));
    }
    for sequence in 2..=12 {
        shapes.push(point("many_dup_shp", sequence));
    }
    let gtfs = RawGtfs {
        stops: Table::Rows(vec![
            stop("stop4", "Stop 4", LocationType::StopPoint),
            stop("stop5", "Stop 5", LocationType::StopPoint),
            stop("stop5", "Stop 5", LocationType::StopPoint),
        ]),
        routes: Table::Rows(vec![route("AB", None, None), route("CITY", None, None), route("CITY", None, None)]),
        trips: Table::Rows(vec![raw_trip("AAMV4", "AAMV", "WE"), raw_trip("AAMV4", "AAMV", "WE")]),
        agencies: Table::Rows(vec![agency_of(Some("DTA"), "Demo"), agency_of(Some("DTA"), "Demo")]),
        pathways: Table::Rows(vec![Pathway { id: "pathway1".to_owned() }, Pathway { id: "pathway1".to_owned() }]),
        calendar: Table::Rows(vec![
            calendar("FULLW", day(2007, 1, 1), day(2010, 12, 31)),
            calendar("WE", day(2007, 1, 1), day(2010, 12, 31)),
            calendar("WE", day(2007, 1, 1), day(2010, 12, 31)),
        ]),
        fare_attributes: Table::Rows(vec![fare("p"), fare("a"), fare("a")]),
        shapes: Table::Rows(shapes),
        ..empty_raw()
    };
    let issues = raw_gtfs::validate(&gtfs);
    assert_eq!(9, issues.len());

    assert_eq!(
        Issue::new(Severity::Error, IssueType::DuplicateObjectId, "stop5").object_type(ObjectType::Stop),
        issues[0]
    );

    assert_eq!(
        Issue::new(Severity::Error, IssueType::DuplicateObjectId, "CITY").object_type(ObjectType::Route),
        issues[1]
    );
    assert_eq!(
        Issue::new(Severity::Error, IssueType::DuplicateObjectId, "AAMV4").object_type(ObjectType::Trip),
        issues[2]
    );
    assert_eq!(
        Issue::new(Severity::Error, IssueType::DuplicateObjectId, "DTA").object_type(ObjectType::Agency),
        issues[3]
    );
    assert_eq!(
        Issue::new(Severity::Error, IssueType::DuplicateObjectId, "pathway1").object_type(ObjectType::Pathway),
        issues[4]
    );
    assert_eq!(
        Issue::new(Severity::Error, IssueType::DuplicateObjectId, "WE").object_type(ObjectType::Calendar),
        issues[5]
    );

    assert_eq!(
        Issue::new(Severity::Error, IssueType::DuplicateObjectId, "a").object_type(ObjectType::Fare),
        issues[6]
    );
    // many_dup_shp has 11 duplicated pt_sequences, we only display the first 10
    let many_dup_shape_issue = issues.iter().filter(|i| i.object_id.as_str() == "many_dup_shp").next();
    assert_eq!(
        Some(
            &Issue::new(Severity::Error, IssueType::DuplicateObjectId, "many_dup_shp")
                .object_type(ObjectType::Shape)
                .details("Shape has duplicated pt_sequence: 2, 3, 4, 5, 6, 7, 8, 9, 10, 11…")
        ),
        many_dup_shape_issue
    );
    let a_shape_issue = issues.iter().filter(|i| i.object_id.as_str() == "A_shp").next();
    assert_eq!(
        Some(
            &Issue::new(Severity::Error, IssueType::DuplicateObjectId, "A_shp")
                .object_type(ObjectType::Shape)
                .details("Shape has duplicated pt_sequence: 0")
        ),
        a_shape_issue
    );
}

#[test]
fn ten_repeated_sequences_are_all_shown() {
    let mut shapes: Vec<Shape> = vec![];
    for round in 0..2 {
        for sequence in 1..=10 {
            let _ = round;
            shapes.push(point("s", sequence));
        }
    }
    let issues = raw_gtfs::check_shapes_duplicates(&Table::Rows(shapes));
    assert_eq!(1, issues.len());
    assert_eq!(
        Some("Shape has duplicated pt_sequence: 1, 2, 3, 4, 5, 6, 7, 8, 9, 10".to_string()),
        issues[0].details
    );
}

#[test]
fn an_id_that_comes_three_times_is_reported_twice() {
    let rows = Table::Rows(vec![fare("a"), fare("a"), fare("b"), fare("a")]);
    assert_eq!(2, raw_gtfs::check_duplicates(&rows).len());
    assert!(raw_gtfs::check_duplicates(&Table::<FareAttribute>::Absent).is_empty());
}

fn invalid_references_fixture() -> RawGtfs {
    RawGtfs {
        stops: Table::Rows(vec![
            stop("AMV", "Amargosa Valley", LocationType::StopPoint),
            Stop { parent_station: Some("unknown_parent".to_owned()), ..stop("child", "Child", LocationType::StopPoint) },
            Stop { parent_station: Some("unknown_parent".to_owned()), ..stop("child2", "Child 2", LocationType::StopPoint) },
        ]),
        routes: Table::Rows(vec![
            Route { agency_id: Some("DTA".to_owned()), ..route("AAMV", Some("Airport"), None) },
            Route { agency_id: Some("unknown_agency".to_owned()), ..route("CITY", Some("City"), None) },
        ]),
        trips: Table::Rows(vec![
            raw_trip("AAMV4", "AAMV", "WE"),
            raw_trip("trip_with_unknown_service", "AAMV", "unknown_service"),
            raw_trip("trip_with_unknown_route", "unkown_route", "WE"),
            raw_trip("dated", "AAMV", "ONLY_DATES"),
        ]),
        agencies: Table::Rows(vec![agency_of(Some("DTA"), "Demo")]),
        calendar: Table::Rows(vec![calendar("WE", day(2007, 1, 1), day(2010, 12, 31))]),
        calendar_dates: Table::Rows(vec![CalendarDate {
            service_id: "ONLY_DATES".to_owned(),
            date: day(2007, 6, 4),
            exception_type: Exception::Added,
        }]),
        stop_times: Table::Rows(vec![
            raw_stop_time("AAMV4", "AMV"),
            raw_stop_time("AAMV4", "unknown_stop"),
            raw_stop_time("unknown_trip", "AMV"),
            raw_stop_time("unknown_trip", "unknown_stop"),
        ]),
        ..empty_raw()
    }
}

#[test]
fn invalid_reference_test() {
    let gtfs = invalid_references_fixture();
    let issues = invalid_reference::validate(&gtfs);

    assert_eq!(issues.len(), 6);

    let unknown_stop_issue =
        issues.iter().find(|i| i.object_id == "unknown_stop").expect("impossible to find the issue");

    assert_eq!(unknown_stop_issue.issue_type, IssueType::InvalidReference);
    assert_eq!(unknown_stop_issue.object_type, Some(ObjectType::Stop));
    assert_eq!(
        unknown_stop_issue.details,
        Some("The stop is referenced by a stop time but does not exist".to_owned())
    );

    let unknown_trip_issue =
        issues.iter().find(|i| i.object_id == "unknown_trip").expect("impossible to find the issue");

    assert_eq!(unknown_trip_issue.issue_type, IssueType::InvalidReference);
    assert_eq!(unknown_trip_issue.object_type, Some(ObjectType::Trip));
    assert_eq!(
        unknown_trip_issue.details,
        Some("The trip is referenced by a stop time but does not exist".to_owned())
    );

    let unknown_service_issue =
        issues.iter().find(|i| i.object_id == "unknown_service").expect("impossible to find the issue");

    assert_eq!(unknown_service_issue.issue_type, IssueType::InvalidReference);
    assert_eq!(unknown_service_issue.object_type, Some(ObjectType::Calendar));
    assert_eq!(
        unknown_service_issue.details,
        Some("The service is referenced by a trip but does not exist".to_owned())
    );
    assert_eq!(
        unknown_service_issue.related_objects,
        vec![RelatedObject {
            id: "trip_with_unknown_service".to_owned(),
            object_type: Some(ObjectType::Trip),
            name: Some("route id: AAMV, service id: unknown_service".to_owned())
        }]
    );

    let unknown_route_issue =
        issues.iter().find(|i| i.object_id == "unkown_route").expect("impossible to find the issue");

    assert_eq!(unknown_route_issue.issue_type, IssueType::InvalidReference);
    assert_eq!(unknown_route_issue.object_type, Some(ObjectType::Route));
    assert_eq!(
        unknown_route_issue.details,
        Some("The route is referenced by a trip but does not exist".to_owned())
    );
    assert_eq!(
        unknown_route_issue.related_objects,
        vec![RelatedObject {
            id: "trip_with_unknown_route".to_owned(),
            object_type: Some(ObjectType::Trip),
            name: Some("route id: unkown_route, service id: WE".to_owned())
        }]
    );

    let unknown_agency_issue =
        issues.iter().find(|i| i.object_id == "unknown_agency").expect("impossible to find the issue");

    assert_eq!(unknown_agency_issue.issue_type, IssueType::InvalidReference);
    assert_eq!(unknown_agency_issue.object_type, Some(ObjectType::Agency));
    assert_eq!(
        unknown_agency_issue.details,
        Some("The agency is referenced by a route but does not exist".to_owned())
    );

    let unknown_stop_parent_issue =
        issues.iter().find(|i| i.object_id == "unknown_parent").expect("impossible to find the issue");

    assert_eq!(unknown_stop_parent_issue.issue_type, IssueType::InvalidReference);
    assert_eq!(unknown_stop_parent_issue.object_type, Some(ObjectType::Stop));
    assert_eq!(
        unknown_stop_parent_issue.details,
        Some("The stop is referenced as a stop's parent_station but does not exist".to_owned())
    );
    // the first child that names the missing parent is the one related
    assert_eq!("child", unknown_stop_parent_issue.related_objects[0].id);
    assert!(issues.iter().all(|i| i.severity == Severity::Fatal));
}

#[test]
fn references_to_an_unreadable_file_are_not_checked() {
    let raw = RawGtfs { stops: Table::Unreadable(failure("stops.txt")), ..invalid_references_fixture() };
    let issues = invalid_reference::validate(&raw);
    assert!(issues.iter().all(|i| i.object_type != Some(ObjectType::Stop)));
    assert_eq!(4, issues.len());
}

#[test]
fn show_validation_version() {
    let metadatas = extract_metadata(&empty_raw());
    assert!(!metadatas.validator_version.is_empty());
}

fn feed_info_fixture() -> RawGtfs {
    RawGtfs {
        feed_info: Table::Rows(vec![
            feed("SNCF", Some("contact@sncf.fr"), Some(day(2018, 7, 9)), Some(day(2018, 9, 27))),
            feed("BIBUS", Some("contact@bibus.fr"), Some(day(2019, 1, 2)), Some(day(2019, 2, 4))),
            feed("Star", None, None, None),
        ]),
        ..empty_raw()
    }
}

#[test]
fn test_feed_info_metadata() {
    let metadatas = extract_metadata(&feed_info_fixture());
    assert_eq!(
        HashMap::from([
            ("SNCF".to_owned(), "contact@sncf.fr".to_owned()),
            ("BIBUS".to_owned(), "contact@bibus.fr".to_owned())
        ]),
        as_map(&metadatas.feed_contact_emails)
    );
    assert_eq!(
        HashMap::from([
            ("SNCF".to_owned(), "2018-07-09".to_owned()),
            ("BIBUS".to_owned(), "2019-01-02".to_owned())
        ]),
        as_map(&metadatas.feed_start_dates)
    );
    assert_eq!(
        HashMap::from([
            ("SNCF".to_owned(), "2018-09-27".to_owned()),
            ("BIBUS".to_owned(), "2019-02-04".to_owned())
        ]),
        as_map(&metadatas.feed_end_dates)
    );
}

#[test]
fn test_feed_info_not_present_metadata() {
    // feed_info.txt is not present
    let raw_gtfs = empty_raw();
    let metadatas = extract_metadata(&raw_gtfs);

    assert!(!raw_gtfs.files.contains(&"feed_info.txt".to_owned()));
    assert_eq!(HashMap::new(), as_map(&metadatas.feed_contact_emails));
    assert_eq!(HashMap::new(), as_map(&metadatas.feed_start_dates));
    assert_eq!(HashMap::new(), as_map(&metadatas.feed_end_dates));
}

#[test]
fn test_has_fares() {
    let raw_gtfs = RawGtfs { fare_attributes: Table::Rows(vec![fare("a")]), ..empty_raw() };
    let metadatas = extract_metadata(&raw_gtfs);
    assert!(metadatas.has_fares);
}

#[test]
fn test_has_shapes() {
    let raw_gtfs = RawGtfs { shapes: Table::Rows(vec![point("A_shp", 0)]), ..empty_raw() };
    let metadatas = extract_metadata(&raw_gtfs);
    assert!(metadatas.has_shapes);
}

#[test]
fn test_no_optional_files() {
    let metadatas = extract_metadata(&empty_raw());
    assert!(!metadatas.has_fares);
    assert!(!metadatas.has_shapes);
    assert!(!metadatas.has_pathways);
    // a file that is there and empty has nothing either
    let raw_gtfs = RawGtfs { shapes: Table::Rows(vec![]), pathways: Table::Unreadable(failure("x")), ..empty_raw() };
    let metadatas = extract_metadata(&raw_gtfs);
    assert!(!metadatas.has_shapes);
    assert!(!metadatas.has_pathways);
}

#[test]
fn test_stop_need_phone_agency() {
    let raw_gtfs = RawGtfs {
        stop_times: Table::Rows(vec![
            raw_stop_time("t", "a"),
            RawStopTime { pickup_type: PickupDropOffType::ArrangeByPhone, ..raw_stop_time("t", "b") },
        ]),
        ..empty_raw()
    };
    let metadatas = extract_metadata(&raw_gtfs);
    assert!(metadatas.some_stops_need_phone_agency);
    assert!(!metadatas.some_stops_need_phone_driver);
}

#[test]
fn test_stop_need_phone_driver() {
    let raw_gtfs = RawGtfs {
        stop_times: Table::Rows(vec![
            raw_stop_time("t", "a"),
            RawStopTime { drop_off_type: PickupDropOffType::CoordinateWithDriver, ..raw_stop_time("t", "b") },
        ]),
        ..empty_raw()
    };
    let metadatas = extract_metadata(&raw_gtfs);
    assert!(!metadatas.some_stops_need_phone_agency);
    assert!(metadatas.some_stops_need_phone_driver);
}

#[test]
fn test_has_pathways() {
    let metadatas = extract_metadata(&missing_mandatory_files_fixture());
    assert!(metadatas.has_pathways);
}

#[test]
fn test_count_routes_with_custom_color() {
    let red = Color { r: 255, g: 0, b: 0 };
    let raw_gtfs = RawGtfs {
        routes: Table::Rows(vec![
            Route { color: red, ..route("1", Some("One"), Some("1")) },
            Route { text_color: red, ..route("2", Some("Two"), Some("2")) },
            Route { color: red, text_color: red, ..route("3", Some("Three"), Some("3")) },
            route("4", Some(""), Some("4")),
            route("5", None, Some("")),
        ]),
        ..empty_raw()
    };
    let metadatas = extract_metadata(&raw_gtfs);
    assert_eq!(3, metadatas.stats.routes_with_custom_color_count);
    assert_eq!(3, metadatas.stats.routes_with_long_name_count);
    assert_eq!(4, metadatas.stats.routes_with_short_name_count);
}

fn stops_fixture() -> RawGtfs {
    let mut stops: Vec<Stop> = vec![];
    for i in 0..11 {
        stops.push(stop(&format!("point{}", i), "Point", LocationType::StopPoint));
    }
    for i in 0..2 {
        stops.push(stop(&format!("area{}", i), "Area", LocationType::StopArea));
    }
    for i in 0..6 {
        stops.push(stop(&format!("entrance{}", i), "Entrance", LocationType::StationEntrance));
    }
    let mut trips: Vec<RawTrip> = vec![];
    for i in 0..11 {
        trips.push(RawTrip {
            bikes_allowed: if i < 3 { BikesAllowedType::AtLeastOneBike } else { BikesAllowedType::NoBikeInfo },
            wheelchair_accessible: if i < 3 { Availability::NotAvailable } else { Availability::InformationNotAvailable },
            trip_headsign: if i < 9 {
                Some("to somewhere".to_owned())
            } else if i == 9 {
                Some("".to_owned())
            } else {
                None
            },
            ..raw_trip(&format!("trip{}", i), "AB", "WE")
        });
    }
    RawGtfs {
        stops: Table::Rows(stops),
        trips: Table::Rows(trips),
        routes: Table::Rows(vec![
            route("AB", Some("Airport - Bullfrog"), None),
            route("BFC", Some("Bullfrog - Furnace Creek"), None),
            route("STBA", Some("Stagecoach - Airport"), None),
            route("CITY", Some("City"), None),
            route("AAMV", None, None),
        ]),
        fare_attributes: Table::Rows(vec![fare("p"), fare("a")]),
        fare_rules: Table::Rows(vec![
            FareRule { fare_id: "p".to_owned() },
            FareRule { fare_id: "p".to_owned() },
            FareRule { fare_id: "a".to_owned() },
            FareRule { fare_id: "a".to_owned() },
        ]),
        ..empty_raw()
    }
}

fn linked_stops(raw: &RawGtfs) -> Gtfs {
    let stops = match &raw.stops {
        Table::Rows(rows) => rows.clone(),
        _ => vec![],
    };
    Gtfs { stops, ..empty_gtfs() }
}

#[test]
fn test_count_trips() {
    let raw_gtfs = stops_fixture();
    let mut metadatas = extract_metadata(&raw_gtfs);

    assert_eq!(11, metadatas.stats.trips_count);
    assert_eq!(3, metadatas.stats.trips_with_bike_info_count);
    assert_eq!(3, metadatas.stats.trips_with_wheelchair_info_count);
    assert_eq!(0, metadatas.stats.trips_with_shape_count);
    assert_eq!(9, metadatas.stats.trips_with_trip_headsign_count);

    // also check the fares in the tests data
    assert_eq!(2, metadatas.stats.fares_attribute_count);
    assert_eq!(4, metadatas.stats.fares_rules_count);

    let expected = Stats {
        stops_count: 19,
        stop_areas_count: 2,
        stop_points_count: 11,
        stops_with_wheelchair_info_count: None,
        routes_count: 5,
        routes_with_custom_color_count: 0,
        routes_with_short_name_count: 0,
        routes_with_long_name_count: 4,
        trips_count: 11,
        trips_with_bike_info_count: 3,
        trips_with_wheelchair_info_count: 3,
        trips_with_shape_count: 0,
        trips_with_trip_headsign_count: 9,
        transfers_count: 0,
        fares_attribute_count: 2,
        fares_rules_count: 4,
    };
    assert_eq!(expected, metadatas.stats);
    assert_eq!(expected, compute_stats(&raw_gtfs));

    // the count of stops with wheelchair information comes with the linked model
    let gtfs = linked_stops(&raw_gtfs);
    metadatas.enrich_with_advanced_infos(&gtfs);
    assert_eq!(Stats { stops_with_wheelchair_info_count: Some(0), ..expected }, metadatas.stats);
}

#[test]
fn test_count_stops_with_accessibility_infos() {
    let with = |id: &str, location_type: LocationType, boarding: Availability, parent: Option<&str>| Stop {
        wheelchair_boarding: boarding,
        parent_station: parent.map(|p| p.to_owned()),
        ..stop(id, id, location_type)
    };
    let unknown = Availability::InformationNotAvailable;
    let stops = vec![
        with("area_yes", LocationType::StopArea, Availability::Available, None),
        with("area_no", LocationType::StopArea, Availability::NotAvailable, None),
        with("area_unknown", LocationType::StopArea, unknown, None),
        with("area_other", LocationType::StopArea, unknown, None),
        with("p1", LocationType::StopPoint, Availability::Available, None),
        with("p2", LocationType::StopPoint, Availability::NotAvailable, Some("area_unknown")),
        with("p3", LocationType::StopPoint, unknown, Some("area_yes")),
        with("p4", LocationType::StopPoint, unknown, Some("area_no")),
        with("p5", LocationType::StopPoint, unknown, Some("area_unknown")),
        with("p6", LocationType::StopPoint, unknown, None),
        with("e1", LocationType::StationEntrance, unknown, Some("area_yes")),
        with("e2", LocationType::StationEntrance, unknown, Some("area_no")),
        with("e3", LocationType::StationEntrance, Availability::Available, Some("area_unknown")),
        with("e4", LocationType::StationEntrance, Availability::NotAvailable, None),
        with("e5", LocationType::StationEntrance, unknown, Some("area_unknown")),
        with("e6", LocationType::StationEntrance, unknown, Some("missing")),
    ];
    let mut trips: Vec<RawTrip> = vec![];
    for i in 0..6 {
        trips.push(RawTrip { trip_headsign: Some("to somewhere".to_owned()), ..raw_trip(&format!("trip{}", i), "AB", "WE") });
    }
    let raw_gtfs = RawGtfs {
        stops: Table::Rows(stops),
        trips: Table::Rows(trips),
        routes: Table::Rows(vec![Route { color: Color { r: 0, g: 0, b: 255 }, ..route("AB", Some("Airport"), Some("A")) }]),
        ..empty_raw()
    };
    let mut metadatas = extract_metadata(&raw_gtfs);
    let gtfs = linked_stops(&raw_gtfs);
    assert_eq!(16, metadatas.stops_count);

    metadatas.enrich_with_advanced_infos(&gtfs);
    assert_eq!(
        Stats {
            stops_count: 16,
            stop_areas_count: 4,
            stop_points_count: 6,
            stops_with_wheelchair_info_count: Some(10),
            routes_count: 1,
            routes_with_custom_color_count: 1,
            routes_with_short_name_count: 1,
            routes_with_long_name_count: 1,
            trips_count: 6,
            trips_with_bike_info_count: 0,
            trips_with_wheelchair_info_count: 0,
            trips_with_shape_count: 0,
            trips_with_trip_headsign_count: 6,
            transfers_count: 0,
            fares_attribute_count: 0,
            fares_rules_count: 0,
        },
        metadatas.stats
    );
}

#[test]
fn test_count_trips_without_shapes() {
    let raw_gtfs = RawGtfs {
        trips: Table::Rows(vec![
            RawTrip { shape_id: Some("B_shp".to_owned()), ..raw_trip("STBA", "STBA", "WE") },
            RawTrip { shape_id: Some("non_existing_shape_id".to_owned()), ..raw_trip("AB1", "AB", "WE") },
            raw_trip("AB2", "AB", "WE"),
        ]),
        ..empty_raw()
    };
    let metadatas = extract_metadata(&raw_gtfs);

    // a trip with a shape that does not exist counts too
    assert_eq!(2, metadatas.stats.trips_with_shape_count);
}

fn is_area(stop: &Stop) -> bool {
    stop.location_type == LocationType::StopArea
}

#[test]
fn counts_objects_counts_the_rows_that_match() {
    let rows = Table::Rows(vec![
        stop("a", "A", LocationType::StopArea),
        stop("b", "B", LocationType::StopPoint),
        stop("c", "C", LocationType::StopArea),
    ]);
    assert_eq!(2, counts_objects(&rows, is_area));
    assert_eq!(0, counts_objects(&Table::Absent, is_area));
    assert_eq!(0, counts_objects(&Table::Unreadable(failure("stops.txt")), is_area));
}

#[test]
fn test_network_start_end_dates() {
    let raw_gtfs = RawGtfs {
        agencies: Table::Rows(vec![agency_of(Some("1"), "BIBUS")]),
        calendar: Table::Rows(vec![
            calendar("WE", day(2017, 1, 1), day(2017, 1, 10)),
            calendar("WD", day(2017, 1, 5), day(2017, 1, 15)),
        ]),
        ..empty_raw()
    };
    let mut metadatas = extract_metadata(&raw_gtfs);
    let gtfs = Gtfs { agencies: vec![agency_of(Some("1"), "BIBUS")], ..empty_gtfs() };
    metadatas.enrich_with_advanced_infos(&gtfs);

    let networks_start_end_dates = metadatas.networks_start_end_dates.unwrap();

    assert_eq!(1, networks_start_end_dates.len());

    let (name, start_end) = &networks_start_end_dates[0];
    assert_eq!("BIBUS", name);
    assert_eq!(Some(Interval { start_date: day(2017, 1, 1), end_date: day(2017, 1, 15) }), *start_end);
    assert_eq!(Some("2017-01-01".to_string()), metadatas.start_date);
    assert_eq!(Some("2017-01-15".to_string()), metadatas.end_date);
}

#[test]
fn test_networks_start_end_dates() {
    let raw_gtfs = RawGtfs {
        agencies: Table::Rows(vec![agency_of(Some("1"), "BIBUS"), agency_of(Some("2"), "Ter")]),
        ..empty_raw()
    };
    let mut metadatas = extract_metadata(&raw_gtfs);
    let with_agency = |id: &str, agency: &str| Route { agency_id: Some(agency.to_owned()), ..route(id, Some(id), None) };
    let trip = |id: &str, route_id: &str, service_id: &str| Trip {
        id: id.to_owned(),
        service_id: service_id.to_owned(),
        route_id: route_id.to_owned(),
        stop_times: Vec::<StopTime>::new(),
        shape_id: None,
    };
    let gtfs = Gtfs {
        agencies: vec![agency_of(Some("1"), "BIBUS"), agency_of(Some("2"), "Ter")],
        routes: vec![with_agency("bus", "1"), with_agency("train", "2")],
        trips: vec![
            trip("t1", "train", "TER_A"),
            trip("t2", "bus", "BUS_A"),
            trip("t3", "train", "TER_B"),
            trip("t4", "bus", "BUS_DATES"),
            trip("t5", "nowhere", "TER_A"),
            trip("t6", "bus", "NO_SERVICE"),
        ],
        calendar: vec![
            calendar("TER_A", day(2019, 1, 1), day(2020, 1, 1)),
            calendar("TER_B", day(2021, 1, 1), day(2022, 1, 1)),
            calendar("BUS_A", day(2017, 1, 1), day(2018, 1, 1)),
        ],
        calendar_dates: vec![ServiceDates {
            service_id: "BUS_DATES".to_owned(),
            dates: vec![
                CalendarDate { service_id: "BUS_DATES".to_owned(), date: day(2016, 1, 1), exception_type: Exception::Added },
                CalendarDate { service_id: "BUS_DATES".to_owned(), date: day(2023, 1, 1), exception_type: Exception::Added },
                CalendarDate { service_id: "BUS_DATES".to_owned(), date: day(2030, 1, 1), exception_type: Exception::Deleted },
            ],
        }],
        ..empty_gtfs()
    };

    assert_eq!(None, metadatas.networks_start_end_dates);

    metadatas.enrich_with_advanced_infos(&gtfs);

    let networks_start_end_dates: HashMap<String, Option<Interval>> =
        metadatas.networks_start_end_dates.unwrap().into_iter().collect();

    assert_eq!(2, networks_start_end_dates.len());

    let start_end = networks_start_end_dates.get("Ter").unwrap().as_ref().unwrap();

    assert_eq!(Interval { start_date: day(2019, 1, 1), end_date: day(2022, 1, 1) }, start_end.to_owned());

    let start_end = networks_start_end_dates.get("BIBUS").unwrap().as_ref().unwrap();

    assert_eq!(Interval { start_date: day(2016, 1, 1), end_date: day(2023, 1, 1) }, start_end.to_owned());
}

#[test]
fn test_interval_serialization() {
    // the two days of a span as the library writes them
    let i = Interval { start_date: day(2022, 1, 1), end_date: day(2023, 1, 2) };
    let raw_gtfs = RawGtfs { calendar: Table::Rows(vec![calendar("WE", i.start_date, i.end_date)]), ..empty_raw() };
    let metadatas = extract_metadata(&raw_gtfs);
    assert_eq!(Some("2022-01-01".to_string()), metadatas.start_date);
    assert_eq!(Some("2023-01-02".to_string()), metadatas.end_date);
}

#[test]
fn dates_come_from_calendar_dates_alone() {
    let raw_gtfs = RawGtfs {
        calendar_dates: Table::Rows(vec![
            CalendarDate { service_id: "A".to_owned(), date: day(2020, 3, 2), exception_type: Exception::Added },
            CalendarDate { service_id: "A".to_owned(), date: day(2020, 2, 1), exception_type: Exception::Added },
            CalendarDate { service_id: "A".to_owned(), date: day(2019, 1, 1), exception_type: Exception::Deleted },
        ]),
        ..empty_raw()
    };
    let metadatas = extract_metadata(&raw_gtfs);
    assert_eq!(Some("2020-02-01".to_string()), metadatas.start_date);
    assert_eq!(Some("2020-03-02".to_string()), metadatas.end_date);
    let gtfs = Gtfs {
        calendar_dates: vec![ServiceDates { service_id: "A".to_owned(), dates: vec![] }],
        ..empty_gtfs()
    };
    let report = validate_and_metadata(&raw_gtfs, linked(gtfs), 1000, &CustomRules::default());
    assert!(report.get(IssueType::NoCalendar).is_none());
}

#[test]
fn networks_and_modes_are_listed_once() {
    let raw_gtfs = RawGtfs {
        agencies: Table::Rows(vec![agency_of(Some("1"), "Ter"), agency_of(Some("2"), "BIBUS"), agency_of(Some("3"), "Ter")]),
        routes: Table::Rows(vec![
            Route { route_type: RouteType::Rail, ..route("a", None, None) },
            route("b", None, None),
            Route { route_type: RouteType::Other(1700), ..route("c", None, None) },
            Route { route_type: RouteType::Rail, ..route("d", None, None) },
            Route { route_type: RouteType::CableCar, ..route("e", None, None) },
        ]),
        ..empty_raw()
    };
    let metadatas = extract_metadata(&raw_gtfs);
    assert_eq!(vec!["Ter", "BIBUS"], metadatas.networks);
    assert_eq!(vec!["rail", "bus", "cable_car"], metadatas.modes);
    assert!(metadatas.issues_count.is_empty());
}

fn invalid_stop_file_fixture() -> (RawGtfs, LoadError) {
    let headers = vec![
        "stop_id", "stop_name", "stop_desc", "stop_lat", "stop_lon", "zone_id", "stop_url", "location_type", "parent_station",
    ];
    let values = vec!["stop_with_bad_coord", "Moo", "", "baaaaaad_coord", "-116.40094", "", "", "", "1"];
    let error = LoadError {
        kind: ErrorKind::CsvParse,
        message: "impossible to read csv file 'stops.txt'".to_owned(),
        source: Some("CSV deserialize error: record 12 (line: 13, byte: 739): invalid float literal".to_owned()),
        csv: Some(CsvFailure {
            file_name: "stops.txt".to_owned(),
            line_number: Some(13),
            line_in_error: Some(LineInError {
                headers: headers.into_iter().map(|s| s.to_owned()).collect(),
                values: values.into_iter().map(|s| s.to_owned()).collect(),
            }),
        }),
    };
    let raw = RawGtfs {
        stops: Table::Unreadable(error.clone()),
        trips: Table::Rows(vec![raw_trip("AAMV4", "AAMV", "WE")]),
        routes: Table::Rows(vec![route("AB", Some("Airport"), None)]),
        calendar: Table::Rows(vec![calendar("WE", day(2007, 1, 1), day(2010, 12, 31))]),
        stop_times: Table::Rows(vec![raw_stop_time("AAMV4", "stop_with_bad_coord")]),
        files: files(&["agency.txt", "routes.txt", "stops.txt", "stop_times.txt", "trips.txt", "calendar.txt"]),
        ..empty_raw()
    };
    (raw, error)
}

// A feed with a broken stops.txt file: the rules on the rows are applied,
// and there is a fatal issue on the stops.txt file
#[test]
fn test_invalid_stop_points() {
    let custom_rules = CustomRules { ..Default::default() };
    let (raw, error) = invalid_stop_file_fixture();
    let issues = process(Ok((raw, Err(error))), 1000, &custom_rules);

    let unloadable_model_errors = issues.get(IssueType::UnloadableModel).unwrap();

    assert_eq!(unloadable_model_errors.len(), 1);
    let unloadable_model_error = &unloadable_model_errors[0];

    assert_eq!(unloadable_model_error, &Issue {
            severity: Severity::Fatal,
            issue_type: IssueType::UnloadableModel,
            object_id: "A fatal error has occured while loading the model, many rules have not been checked".to_string(),
            object_type: None,
            object_name: None,
            related_objects: vec![],
            details: Some(
                "impossible to read csv file \'stops.txt\': CSV deserialize error: record 12 (line: 13, byte: 739): invalid float literal".to_string()
            ),
            related_file: Some(RelatedFile {
                file_name: "stops.txt".to_owned(),
                line: Some(RelatedLine {
                        line_number: 13,
                        headers: vec!["stop_id", "stop_name", "stop_desc", "stop_lat", "stop_lon", "zone_id", "stop_url", "location_type", "parent_station"].into_iter().map(|s| s.to_owned()).collect(),
                        values: vec!["stop_with_bad_coord", "Moo", "", "baaaaaad_coord", "-116.40094", "", "", "", "1"].into_iter().map(|s| s.to_owned()).collect()
                    }),
            }),
            geojson: None
    });

    // even if the model was unloadable, some rules are checked: a route is
    // missing (the stops are not looked for, as stops.txt could not be read)
    assert_eq!(
        issues.get(IssueType::InvalidReference).unwrap(),
        &vec![Issue {
            severity: Severity::Fatal,
            issue_type: IssueType::InvalidReference,
            object_id: "AAMV".to_string(),
            object_type: Some(ObjectType::Route),
            object_name: None,
            related_file: None,
            related_objects: vec![RelatedObject {
                id: "AAMV4".to_string(),
                object_type: Some(ObjectType::Trip),
                name: Some("route id: AAMV, service id: WE".to_string())
            }],
            details: Some("The route is referenced by a trip but does not exist".to_string()),
            geojson: None
        }]
    );
    let metadata = issues.metadata.unwrap();
    assert_eq!(vec![(IssueType::InvalidReference, 1), (IssueType::UnloadableModel, 1)], metadata.issues_count);
    assert_eq!(None, metadata.networks_start_end_dates);
}

fn missing_route_type_report() -> Response {
    let error = LoadError {
        kind: ErrorKind::MissingField,
        message: "impossible to read csv file 'routes.txt'".to_owned(),
        source: Some("CSV deserialize error: record 1 (line: 2, byte: 101): missing field `route_type`".to_owned()),
        csv: Some(CsvFailure { file_name: "routes.txt".to_owned(), line_number: Some(2), line_in_error: None }),
    };
    let raw = RawGtfs { routes: Table::Unreadable(error.clone()), ..empty_raw() };
    process(Ok((raw, Err(error))), 10, &CustomRules::default())
}

#[test]
fn route_type_test_missing() {
    let report = missing_route_type_report();
    let invalid_archive_validations = report.get(IssueType::UnloadableModel).unwrap();

    assert_eq!(1, invalid_archive_validations.len());
    assert_eq!(Severity::Fatal, invalid_archive_validations[0].severity);
    assert_eq!(IssueType::UnloadableModel, invalid_archive_validations[0].issue_type);
}

#[test]
fn test_missing_route_type() {
    let report = missing_route_type_report();
    let invalid_archive_validations = report.get(IssueType::UnloadableModel).unwrap();

    assert_eq!(1, invalid_archive_validations.len());
    assert_eq!(Severity::Fatal, invalid_archive_validations[0].severity);
    assert_eq!(IssueType::UnloadableModel, invalid_archive_validations[0].issue_type);
    // the line is named only where its content was kept
    assert_eq!(
        Some(RelatedFile { file_name: "routes.txt".to_owned(), line: None }),
        invalid_archive_validations[0].related_file
    );
}

#[test]
fn unreadable_archive_gives_one_fatal_issue() {
    let report = process(Err(failure("invalid zip archive")), 1000, &CustomRules::default());
    assert_eq!(None, report.metadata);
    assert_eq!(
        vec![(
            IssueType::InvalidArchive,
            vec![Issue::new(Severity::Fatal, IssueType::InvalidArchive, "").details("invalid zip archive")]
        )],
        report.validations
    );
}

fn many_issues_fixture() -> (RawGtfs, Gtfs) {
    let stops: Vec<Stop> = (0..5).map(|i| stop(&format!("s{}", i), "", LocationType::StopPoint)).collect();
    let raw = RawGtfs {
        stops: Table::Rows(stops.clone()),
        files: files(&["agency.txt", "routes.txt", "stops.txt", "trips.txt", "a.txt", "b.txt"]),
        ..empty_raw()
    };
    (raw, Gtfs { stops, ..empty_gtfs() })
}

#[test]
fn counts_are_taken_before_the_cut() {
    let (raw, gtfs) = many_issues_fixture();
    let rules = CustomRules::default();
    let whole = validate_and_metadata(&raw, linked(gtfs.clone()), 1000, &rules);
    let cut = validate_and_metadata(&raw, linked(gtfs.clone()), 2, &rules);
    let one = validate_and_metadata(&raw, linked(gtfs), 1, &rules);
    let counts = whole.metadata.clone().unwrap().issues_count;
    assert_eq!(
        vec![
            (IssueType::UnusedStop, 5),
            (IssueType::MissingName, 5),
            (IssueType::MissingMandatoryFile, 1),
            (IssueType::ExtraFile, 2),
            (IssueType::NoCalendar, 1),
        ],
        counts
    );
    assert_eq!(counts, cut.metadata.clone().unwrap().issues_count);
    assert_eq!(counts, one.metadata.clone().unwrap().issues_count);
    let sizes = |r: &Response| -> Vec<(IssueType, usize)> { r.validations.iter().map(|(t, v)| (*t, v.len())).collect() };
    assert_eq!(counts, sizes(&whole));
    assert_eq!(
        vec![
            (IssueType::UnusedStop, 2),
            (IssueType::MissingName, 2),
            (IssueType::MissingMandatoryFile, 1),
            (IssueType::ExtraFile, 2),
            (IssueType::NoCalendar, 1),
        ],
        sizes(&cut)
    );
    assert!(sizes(&one).iter().all(|(_, n)| *n == 1));
    assert_eq!(5, one.validations.len());
    // the first issues of a category are the ones kept
    assert_eq!("s0", one.get(IssueType::UnusedStop).unwrap()[0].object_id);
    assert_eq!("a.txt", one.get(IssueType::ExtraFile).unwrap()[0].object_id);
}

#[test]
fn same_feed_gives_the_same_report() {
    let (raw, gtfs) = many_issues_fixture();
    let rules = CustomRules::default();
    let first = validate_and_metadata(&raw, linked(gtfs.clone()), 3, &rules);
    let second = validate_and_metadata(&raw, linked(gtfs), 3, &rules);
    assert_eq!(first, second);
}

#[test]
fn fatal_issues_are_of_few_categories() {
    let (raw, error) = invalid_stop_file_fixture();
    let raw = RawGtfs { files: files(&["stops.txt", "notes.md"]), ..raw };
    let report = process(Ok((raw, Err(error))), 1000, &CustomRules::default());
    let allowed = [
        IssueType::InvalidArchive,
        IssueType::UnloadableModel,
        IssueType::MissingMandatoryFile,
        IssueType::InvalidReference,
    ];
    let mut fatal = 0;
    for (issue_type, issues) in &report.validations {
        for issue in issues {
            assert_eq!(*issue_type, issue.issue_type);
            if issue.severity == Severity::Fatal {
                fatal += 1;
                assert!(allowed.contains(&issue.issue_type));
            }
        }
    }
    assert_eq!(6, fatal);
}

#[test]
fn issues_about_stops_are_drawn() {
    let (raw, gtfs) = many_issues_fixture();
    let report = validate_and_metadata(&raw, linked(gtfs), 1000, &CustomRules::default());
    let unused = report.get(IssueType::UnusedStop).unwrap();
    assert_eq!(1, unused[0].geojson.as_ref().unwrap().features.len());
    let extra = report.get(IssueType::ExtraFile).unwrap();
    assert_eq!(None, extra[0].geojson);
}

#[test]
fn feed_with_headers_only() {
    let report = validate_and_metadata(&empty_raw(), linked(empty_gtfs()), 1000, &CustomRules::default());
    assert_eq!(vec![IssueType::NoCalendar], report.validations.iter().map(|(t, _)| *t).collect::<Vec<_>>());
    let metadata = report.metadata.unwrap();
    assert_eq!(None, metadata.start_date);
    assert_eq!(None, metadata.end_date);
    assert_eq!(0, metadata.stops_count);
    assert_eq!(Some(0), metadata.stats.stops_with_wheelchair_info_count);
    assert_eq!(Some(vec![]), metadata.networks_start_end_dates);
}

#[test]
fn test_no_custom_rules() {
    let custom_rules = custom_rules(None);
    assert_eq!(None, custom_rules.max_bus_speed);
    assert_eq!(None, custom_rules.max_air_speed);
}

#[test]
fn test_some_custom_rules() {
    // 10 km/h for buses and 100.5 km/h for gondolas, in metres per hour
    let loaded = CustomRules { max_bus_speed: Some(10_000), max_gondola_speed: Some(100_500), ..Default::default() };
    let custom_rules = custom_rules(Some(loaded));
    assert_eq!(Some(10_000), custom_rules.max_bus_speed);
    assert_eq!(Some(100_500), custom_rules.max_gondola_speed);
    assert_eq!(None, custom_rules.max_air_speed);
}

#[test]
fn server_binds_to_the_address_set() {
    assert_eq!("127.0.0.1:7878", run_server(None, None));
    assert_eq!("0.0.0.0:7878", run_server(Some("0.0.0.0".to_string()), None));
    assert_eq!("127.0.0.1:80", run_server(None, Some("80".to_string())));
    assert_eq!("localhost:8080", run_server(Some("localhost".to_string()), Some("8080".to_string())));
    assert_eq!(1000, max_size_of(None));
    assert_eq!(5, max_size_of(Some(5)));
}
