use std::collections::BTreeSet;
use validator::custom_rules::CustomRules;
use validator::validators::duration_distance::classify;
use validator::issues::{Feature, Geometry, Issue, IssueType, ObjectType, Position, RelatedObject, Severity};
use validator::model::{
    Agency, Availability, Calendar, Date, FareAttribute, FeedInfo, Gtfs, LocationType, Route, RouteType, Shape,
    ShapeLine, Stop, StopTime, Transfers, Trip,
};
use validator::validators::duplicate_stops::MeasuredPair;
use validator::validators::{
    agency, calendar, check_id, check_name, duplicate_stops, duration_distance, fare_attributes, feed_info,
    interpolated_stoptimes, routes, shapes, stop_times, stops, unusable_trip, unused_stop,
};
use validator::visualization::generate_issue_visualization;

fn empty_gtfs() -> Gtfs {
    Gtfs {
        stops: vec![],
        routes: vec![],
        trips: vec![],
        agencies: vec![],
        calendar: vec![],
        calendar_dates: vec![],
        shapes: vec![],
        fare_attributes: vec![],
        feed_info: vec![],
    }
}

fn stop_at(id: &str, name: &str, location_type: LocationType, lon: i64, lat: i64) -> Stop {
    Stop {
        id: id.to_owned(),
        name: name.to_owned(),
        location_type,
        parent_station: None,
        longitude: Some(lon),
        latitude: Some(lat),
        wheelchair_boarding: Availability::InformationNotAvailable,
    }
}

fn stop(id: &str, name: &str, location_type: LocationType) -> Stop {
    stop_at(id, name, location_type, 24_491_860, 487_960_580)
}

fn child(id: &str, name: &str, location_type: LocationType, parent: &str) -> Stop {
    Stop { parent_station: Some(parent.to_owned()), ..stop(id, name, location_type) }
}

fn route(id: &str, long_name: &str, route_type: RouteType) -> Route {
    Route {
        id: id.to_owned(),
        short_name: None,
        long_name: Some(long_name.to_owned()),
        route_type,
        agency_id: None,
        color: validator::model::Color { r: 255, g: 255, b: 255 },
        text_color: validator::model::Color { r: 0, g: 0, b: 0 },
    }
}

fn st(stop: usize, arrival: u32, departure: u32, sequence: u32) -> StopTime {
    StopTime {
        stop,
        arrival_time: Some(arrival),
        departure_time: Some(departure),
        stop_sequence: sequence,
        distance_to_next: None,
    }
}

fn leg(from: usize, to: usize, departure: u32, arrival: u32, distance: u64) -> Vec<StopTime> {
    vec![
        StopTime { distance_to_next: Some(distance), ..st(from, departure, departure, 1) },
        st(to, arrival, arrival, 2),
    ]
}

fn trip(id: &str, route_id: &str, stop_times: Vec<StopTime>) -> Trip {
    Trip {
        id: id.to_owned(),
        service_id: "WE".to_owned(),
        route_id: route_id.to_owned(),
        stop_times,
        shape_id: None,
    }
}

fn agency_of(id: Option<&str>, name: &str, url: &str, timezone: &str) -> Agency {
    Agency { id: id.map(|i| i.to_owned()), name: name.to_owned(), url: url.to_owned(), timezone: timezone.to_owned() }
}

fn feed(name: &str, url: &str, lang: &str) -> FeedInfo {
    FeedInfo {
        name: name.to_owned(),
        url: url.to_owned(),
        lang: lang.to_owned(),
        start_date: None,
        end_date: None,
        contact_email: None,
    }
}

fn fare(id: &str, price: &str, currency: &str, transfers: Transfers) -> FareAttribute {
    FareAttribute {
        id: id.to_owned(),
        price: price.to_owned(),
        currency: currency.to_owned(),
        transfers,
        transfer_duration: None,
    }
}

fn point(id: &str, sequence: usize, lat: i64, lon: i64) -> Shape {
    Shape { id: id.to_owned(), latitude: lat, longitude: lon, sequence }
}

fn of_type(issues: &[Issue], issue_type: IssueType) -> Vec<&Issue> {
    issues.iter().filter(|i| i.issue_type == issue_type).collect()
}

fn agency_fixture() -> Gtfs {
    Gtfs {
        agencies: vec![
            agency_of(Some("1"), "BIBUS", "", "Europe/Pariss"),
            agency_of(Some("2"), "Ter", "www.ter.sncf.com", "Europe/Paris"),
            agency_of(Some("3"), "Star", "https://www.star.fr", "Europe/Paris"),
        ],
        ..empty_gtfs()
    }
}

#[test]
fn agency_test_missing_url() {
    let issues = agency::validate(&agency_fixture());
    let missing_url_issue = of_type(&issues, IssueType::MissingUrl);
    let invalid_url_count = issues
        .iter()
        .filter(|issue| issue.issue_type == IssueType::InvalidUrl)
        .filter(|issue| issue.object_name == Some("BIBUS".to_string()))
        .count();

    assert_eq!(1, missing_url_issue.len());
    assert_eq!("BIBUS", missing_url_issue[0].object_name.as_ref().unwrap());
    assert_eq!(IssueType::MissingUrl, missing_url_issue[0].issue_type);
    assert_eq!(Severity::Error, missing_url_issue[0].severity);
    assert_eq!(0, invalid_url_count);
}

#[test]
fn test_valid_timezone() {
    let issues = agency::validate(&agency_fixture());
    let invalid_tz_issue = of_type(&issues, IssueType::InvalidTimezone);

    assert_eq!(1, invalid_tz_issue.len());
    assert_eq!("BIBUS", invalid_tz_issue[0].object_name.as_ref().unwrap());
    assert_eq!(IssueType::InvalidTimezone, invalid_tz_issue[0].issue_type);
}

#[test]
fn agency_test_valid_url() {
    let issues = agency::validate(&agency_fixture());
    let invalid_url_issue: Vec<_> = issues
        .iter()
        .filter(|issue| issue.issue_type == IssueType::InvalidUrl)
        .filter(|issue| issue.object_name == Some("Ter".to_string()))
        .collect();

    assert_eq!(1, invalid_url_issue.len());
    assert_eq!("2", invalid_url_issue[0].object_id);
    assert_eq!(IssueType::InvalidUrl, invalid_url_issue[0].issue_type);
    assert_eq!(
        Some("The agency_url (in agency.txt) www.ter.sncf.com is invalid".to_string()),
        invalid_url_issue[0].details
    );
}

#[test]
fn url_with_another_scheme_is_invalid() {
    assert!(agency::is_valid_url("http://example.com/a"));
    assert!(agency::is_valid_url("https://example.com"));
    assert!(!agency::is_valid_url("ftp://example.com"));
    assert!(!agency::is_valid_url("example.com"));
    assert!(!agency::is_valid_url(""));
}

#[test]
fn test_multiple_agencies() {
    let gtfs = Gtfs {
        agencies: vec![
            agency_of(None, "BIBUS", "http://www.bibus.fr", "Europe/Paris"),
            agency_of(Some("2"), "Ter", "http://www.ter.fr", "Europe/Paris"),
        ],
        ..empty_gtfs()
    };
    let issues = check_id::validate(&gtfs);
    let agency_id_issues = of_type(&issues, IssueType::MissingId);

    assert_eq!(1, agency_id_issues.len());
    assert_eq!("BIBUS", agency_id_issues[0].object_name.as_ref().unwrap());
    assert_eq!(IssueType::MissingId, agency_id_issues[0].issue_type);
}

#[test]
fn test_single_agency() {
    let gtfs = Gtfs { agencies: vec![agency_of(None, "BIBUS", "http://www.bibus.fr", "Europe/Paris")], ..empty_gtfs() };
    let issues = check_id::validate(&gtfs);
    let agency_id_issues = of_type(&issues, IssueType::MissingId);

    assert_eq!(0, agency_id_issues.len());
}

#[test]
fn calendar_test_empty() {
    let issues = calendar::validate(&empty_gtfs());
    let warning_issues: Vec<_> = issues.iter().filter(|issue| issue.severity == Severity::Warning).collect();

    assert_eq!(1, warning_issues.len());
    assert_eq!(IssueType::NoCalendar, warning_issues[0].issue_type);
    assert_eq!("", warning_issues[0].object_id);
}

#[test]
fn test_calendar_is_set() {
    let gtfs = Gtfs {
        calendar: vec![Calendar { id: "WE".to_owned(), start_date: Date { days: 736_330 }, end_date: Date { days: 736_344 } }],
        ..empty_gtfs()
    };
    let issues = calendar::validate(&gtfs);
    let no_calendar_issues = of_type(&issues, IssueType::NoCalendar);

    assert!(no_calendar_issues.is_empty());
}

#[test]
fn calendar_dates_alone_are_a_calendar() {
    let gtfs = Gtfs {
        calendar_dates: vec![validator::model::ServiceDates { service_id: "WE".to_owned(), dates: vec![] }],
        ..empty_gtfs()
    };
    assert!(calendar::validate(&gtfs).is_empty());
}

fn check_id_fixture() -> Gtfs {
    Gtfs {
        stops: vec![
            stop("", "Null Island", LocationType::StopPoint),
            stop("é", "AsciiParty", LocationType::StopPoint),
            stop("ok", "Fine", LocationType::StopPoint),
        ],
        ..empty_gtfs()
    }
}

#[test]
fn check_id_test_empty() {
    let issues = check_id::validate(&check_id_fixture());
    let stop_id_issues: Vec<_> =
        issues.iter().filter(|issue| issue.object_name == Some("Null Island".to_string())).collect();

    assert_eq!(1, stop_id_issues.len());
    assert_eq!("Null Island", stop_id_issues[0].object_name.as_ref().unwrap());
    assert_eq!(IssueType::MissingId, stop_id_issues[0].issue_type);
    assert_eq!(Severity::Error, stop_id_issues[0].severity);
}

#[test]
fn test_ascii() {
    let issues = check_id::validate(&check_id_fixture());
    let stop_id_issues: Vec<_> =
        issues.iter().filter(|issue| issue.object_name == Some("AsciiParty".to_string())).collect();

    assert_eq!(1, stop_id_issues.len());
    assert_eq!("AsciiParty", stop_id_issues[0].object_name.as_ref().unwrap());
    assert_eq!(IssueType::IdNotAscii, stop_id_issues[0].issue_type);
    assert_eq!(Severity::Warning, stop_id_issues[0].severity);
}

#[test]
fn shape_without_id_is_reported_as_a_shape() {
    let gtfs = Gtfs { shapes: vec![ShapeLine { id: "".to_owned(), points: vec![] }], ..empty_gtfs() };
    let issues = check_id::validate(&gtfs);
    assert_eq!(
        vec![Issue::new(Severity::Error, IssueType::MissingId, "").object_type(ObjectType::Shape)],
        issues
    );
}

fn check_name_fixture() -> Gtfs {
    Gtfs {
        routes: vec![
            Route { short_name: Some("".to_owned()), long_name: Some("".to_owned()), ..route("35", "", RouteType::Bus) },
            route("36", "Line 36", RouteType::Bus),
        ],
        stops: vec![
            stop("close1", "", LocationType::StopPoint),
            stop("close2", "Close 2", LocationType::StopPoint),
            stop("node", "", LocationType::GenericNode),
        ],
        agencies: vec![
            agency_of(Some("1"), "", "http://a.fr", "Europe/Paris"),
            agency_of(Some("2"), "Ter", "http://b.fr", "Europe/Paris"),
        ],
        feed_info: vec![feed("", "http://c.fr", "fr")],
        ..empty_gtfs()
    }
}

#[test]
fn test_routes() {
    let issues = check_name::validate(&check_name_fixture());
    let route_name_issues: Vec<_> = issues.iter().filter(|issue| issue.object_id == *"35").collect();

    assert_eq!(1, route_name_issues.len());
    assert_eq!("35", route_name_issues[0].object_id);
    assert_eq!(IssueType::MissingName, route_name_issues[0].issue_type);
    assert_eq!(Severity::Error, route_name_issues[0].severity);
}

#[test]
fn test_stops() {
    let issues = check_name::validate(&check_name_fixture());
    let stop_name_issues: Vec<_> = issues.iter().filter(|issue| issue.object_id == *"close1").collect();

    assert_eq!(1, stop_name_issues.len());
    assert_eq!("close1", stop_name_issues[0].object_id);
    assert_eq!(IssueType::MissingName, stop_name_issues[0].issue_type);
    // a generic node needs no name
    assert_eq!(0, issues.iter().filter(|issue| issue.object_id == *"node").count());
}

#[test]
fn test_agencies() {
    let issues = check_name::validate(&check_name_fixture());
    let agency_name_issues: Vec<_> = issues.iter().filter(|issue| issue.object_id == *"1").collect();

    assert_eq!(1, agency_name_issues.len());
    assert_eq!("1", agency_name_issues[0].object_id);
    assert_eq!(IssueType::MissingName, agency_name_issues[0].issue_type);
}

#[test]
fn test_feed_info() {
    let issues = check_name::validate(&check_name_fixture());
    let publisher_name_issues: Vec<_> = issues.iter().filter(|issue| issue.object_id == *"").collect();

    assert_eq!(1, publisher_name_issues.len());
    assert_eq!("", publisher_name_issues[0].object_id);
    assert_eq!(IssueType::MissingName, publisher_name_issues[0].issue_type);
}

#[test]
fn empty_name_goes_by_the_name_shown() {
    assert!(check_name::empty_name(&stop("a", "", LocationType::StopPoint)));
    assert!(!check_name::empty_name(&stop("a", "A", LocationType::StopPoint)));
    // a route without names shows its id
    let unnamed = Route { long_name: None, ..route("35", "", RouteType::Bus) };
    assert!(!check_name::empty_name(&unnamed));
}

#[test]
fn route_name_test() {
    let gtfs = Gtfs {
        routes: vec![
            Route { short_name: None, long_name: None, ..route("CITY", "", RouteType::Bus) },
            Route { short_name: Some("10".to_owned()), long_name: None, ..route("AB", "", RouteType::Bus) },
        ],
        ..empty_gtfs()
    };
    let issues = check_name::validate(&gtfs);

    assert_eq!(1, issues.len());
    assert_eq!("CITY", issues[0].object_id);
    assert_eq!(IssueType::MissingName, issues[0].issue_type);
}

fn stops_fixture() -> Gtfs {
    Gtfs {
        stops: vec![
            stop_at("AMV", "Amargosa Valley", LocationType::StopPoint, 0, 0),
            stop_at("PARENT", "Parent", LocationType::StopArea, 2_000_000_000, 366_410_000),
            stop("BULLFROG", "Bullfrog (Demo)", LocationType::StopArea),
            child("BEATTY_AIRPORT", "Nye County Airport", LocationType::StopArea, "BULLFROG"),
            child("STAGECOACH", "Stagecoach Hotel", LocationType::StopPoint, "NADAV"),
            stop("NADAV", "North Ave", LocationType::StopPoint),
            child("boarding_bad_parent", "Boarding", LocationType::BoardingArea, "BULLFROG"),
            stop("boarding_no_parent", "Boarding", LocationType::BoardingArea),
            child("entrance_bad_parent", "Entrance", LocationType::StationEntrance, "NADAV"),
            stop("entrance_no_parent", "Entrance", LocationType::StationEntrance),
            child("entrance_ok", "Entrance", LocationType::StationEntrance, "BULLFROG"),
            child("boarding_ok", "Boarding", LocationType::BoardingArea, "NADAV"),
            child("point_ok", "Point", LocationType::StopPoint, "BULLFROG"),
        ],
        ..empty_gtfs()
    }
}

#[test]
fn coordinates_test_missing() {
    let issues = stops::validate_coord(&stops_fixture());
    let missing_coord_issue = of_type(&issues, IssueType::MissingCoordinates);

    assert_eq!(1, missing_coord_issue.len());
    assert_eq!("AMV", missing_coord_issue[0].object_id);
    assert_eq!(IssueType::MissingCoordinates, missing_coord_issue[0].issue_type);
}

#[test]
fn coordinates_test_valid() {
    let issues = stops::validate_coord(&stops_fixture());
    let invalid_coord_issue = of_type(&issues, IssueType::InvalidCoordinates);

    assert_eq!(1, invalid_coord_issue.len());
    assert_eq!("PARENT", invalid_coord_issue[0].object_id);
    assert_eq!(IssueType::InvalidCoordinates, invalid_coord_issue[0].issue_type);
}

#[test]
fn stops_test_missing() {
    let issues = stops::validate(&stops_fixture());
    let missing_coord_issue = of_type(&issues, IssueType::MissingCoordinates);

    assert_eq!(1, missing_coord_issue.len());
    assert_eq!("AMV", missing_coord_issue[0].object_id);
    assert_eq!(IssueType::MissingCoordinates, missing_coord_issue[0].issue_type);
    assert_eq!(Some("Latitude and longitude are missing".to_string()), missing_coord_issue[0].details);
}

#[test]
fn stops_test_valid() {
    let issues = stops::validate(&stops_fixture());
    let invalid_coord_issue = of_type(&issues, IssueType::InvalidCoordinates);

    assert_eq!(1, invalid_coord_issue.len());
    assert_eq!("PARENT", invalid_coord_issue[0].object_id);
    assert_eq!(IssueType::InvalidCoordinates, invalid_coord_issue[0].issue_type);
}

#[test]
fn missing_coordinate_is_named() {
    let only_latitude = Stop { longitude: None, ..stop("a", "A", LocationType::StopPoint) };
    let only_longitude = Stop { latitude: Some(0), ..stop("b", "B", LocationType::StopPoint) };
    let node = Stop { longitude: None, latitude: None, ..stop("n", "N", LocationType::GenericNode) };
    assert_eq!(
        Some("Longitude is missing".to_string()),
        stops::check_coord(&only_latitude).unwrap().details
    );
    assert_eq!(
        Some("Latitude is missing".to_string()),
        stops::check_coord(&only_longitude).unwrap().details
    );
    assert_eq!(None, stops::check_coord(&node));
    // a stop without coordinates is not out of range
    assert!(stops::valid_coord(&only_latitude));
    assert!(!stops::valid_coord(&stop_at("c", "C", LocationType::StopPoint, 10, -900_000_001)));
    assert!(stops::valid_coord(&stop_at("c", "C", LocationType::StopPoint, -1_800_000_000, 900_000_000)));
}

#[test]
fn test_stop_parent() {
    let issues = stops::validate(&stops_fixture());
    let invalid_coord_issue = of_type(&issues, IssueType::InvalidStopParent);

    assert_eq!(6, invalid_coord_issue.len());
    let stop_area_issue = invalid_coord_issue
        .iter()
        .find(|i| i.object_id == "BEATTY_AIRPORT")
        .expect("impossible to find the BEATTY_AIRPORT issue");
    assert_eq!(
        Some("it's not valid for a stop area to have a parent station".to_owned()),
        stop_area_issue.details
    );
    assert_eq!(
        vec![RelatedObject {
            id: "BULLFROG".to_owned(),
            object_type: Some(ObjectType::Stop),
            name: Some("Bullfrog (Demo)".to_owned())
        }],
        stop_area_issue.related_objects
    );
    let stop_point_with_parent_stop = invalid_coord_issue
        .iter()
        .find(|i| i.object_id == "STAGECOACH")
        .expect("impossible to find the STAGECOACH issue");
    assert_eq!(
        Some("The parent of a stop point should be a stop area".to_owned()),
        stop_point_with_parent_stop.details
    );
    let boarding_with_parent_stop_area = invalid_coord_issue
        .iter()
        .find(|i| i.object_id == "boarding_bad_parent")
        .expect("impossible to find the boarding_bad_parent issue");
    assert_eq!(
        Some("The parent of a boarding area should be a stop point".to_owned()),
        boarding_with_parent_stop_area.details
    );
    let boarding_without_parent = invalid_coord_issue
        .iter()
        .find(|i| i.object_id == "boarding_no_parent")
        .expect("impossible to find the boarding_no_parent issue");
    assert_eq!(
        Some("The parent of a boarding area should be a stop point".to_owned()),
        boarding_without_parent.details
    );
    let entrance_with_parent_stop_point = invalid_coord_issue
        .iter()
        .find(|i| i.object_id == "entrance_bad_parent")
        .expect("impossible to find the entrance_bad_parent issue");
    assert_eq!(
        Some("The parent of a generic node or an entrance should be a stop area".to_owned()),
        entrance_with_parent_stop_point.details
    );
    let entrance_without_parent = invalid_coord_issue
        .iter()
        .find(|i| i.object_id == "entrance_no_parent")
        .expect("impossible to find the entrance_no_parent issue");
    assert_eq!(
        Some("The parent of a generic node or an entrance should be a stop area".to_owned()),
        entrance_without_parent.details
    );
}

fn duplicate_stops_fixture() -> Gtfs {
    Gtfs {
        stops: vec![
            stop("sp1", "Stop Point", LocationType::StopPoint),
            stop("sp2", "Stop Point", LocationType::StopPoint),
            stop("sa1", "Stop Area", LocationType::StopArea),
            stop("sa2", "Stop Area", LocationType::StopArea),
            stop("se1", "Stop Entrance", LocationType::StationEntrance),
            stop("se2", "Stop Entrance", LocationType::StationEntrance),
            stop("far", "Stop Point", LocationType::StopPoint),
        ],
        ..empty_gtfs()
    }
}

fn measured(gtfs: &Gtfs) -> Vec<MeasuredPair> {
    // distances as measured on the ground: the two stop points are one metre
    // apart, the two areas fifty, and the far stop three metres from both points
    duplicate_stops::candidate_pairs(gtfs)
        .into_iter()
        .map(|(first, second)| MeasuredPair {
            first,
            second,
            distance: match (first, second) {
                (0, 1) => 1_000,
                (2, 3) => 50_000,
                _ => 3_000,
            },
        })
        .collect()
}

#[test]
fn candidates_are_the_pairs_of_same_name_and_kind() {
    let gtfs = duplicate_stops_fixture();
    assert_eq!(vec![(0, 1), (0, 6), (1, 6), (2, 3)], duplicate_stops::candidate_pairs(&gtfs));
}

#[test]
fn duplicate_stops_test_stop_points() {
    let gtfs = duplicate_stops_fixture();
    let issues = duplicate_stops::validate(&gtfs, &measured(&gtfs));
    let duplicate_stops_issues: Vec<_> = issues
        .iter()
        .filter(|issue| issue.issue_type == IssueType::DuplicateStops)
        .filter(|issue| issue.object_name == Some("Stop Point".to_string()))
        .collect();

    assert_eq!(1, duplicate_stops_issues.len());
    assert_eq!("Stop Point", duplicate_stops_issues[0].object_name.as_ref().unwrap());
    assert_eq!("sp1", duplicate_stops_issues[0].object_id);
    assert_eq!("sp2", duplicate_stops_issues[0].related_objects[0].id);
    assert_eq!(Severity::Information, duplicate_stops_issues[0].severity);
}

#[test]
fn test_stop_areas() {
    let gtfs = duplicate_stops_fixture();
    let issues = duplicate_stops::validate(&gtfs, &measured(&gtfs));
    let duplicate_stops_issues: Vec<_> = issues
        .iter()
        .filter(|issue| issue.issue_type == IssueType::DuplicateStops)
        .filter(|issue| issue.object_name == Some("Stop Area".to_string()))
        .collect();

    assert_eq!(1, duplicate_stops_issues.len());
    assert_eq!("Stop Area", duplicate_stops_issues[0].object_name.as_ref().unwrap());
}

#[test]
fn test_stop_entrances() {
    let gtfs = duplicate_stops_fixture();
    let mut pairs = measured(&gtfs);
    // entrances are never duplicates, however close they are measured
    pairs.push(MeasuredPair { first: 4, second: 5, distance: 0 });
    let issues = duplicate_stops::validate(&gtfs, &pairs);
    let entrance_issues_count = issues
        .iter()
        .filter(|issue| issue.issue_type == IssueType::DuplicateStops)
        .filter(|issue| issue.object_name == Some("Stop Entrance".to_string()))
        .count();

    assert_eq!(0, entrance_issues_count);
}

#[test]
fn duplicate_thresholds_are_strict() {
    let gtfs = duplicate_stops_fixture();
    let at = |first: usize, second: usize, distance: u64| {
        duplicate_stops::validate(&gtfs, &vec![MeasuredPair { first, second, distance }]).len()
    };
    assert_eq!(1, at(0, 1, 1_999));
    assert_eq!(0, at(0, 1, 2_000));
    assert_eq!(1, at(2, 3, 99_999));
    assert_eq!(0, at(2, 3, 100_000));
    // not a candidate: different names, or the larger place first
    assert_eq!(0, at(0, 2, 0));
    assert_eq!(0, at(1, 0, 0));
    assert_eq!(0, at(0, 99, 0));
}

fn duration_distance_fixture() -> Gtfs {
    Gtfs {
        stops: vec![
            stop_at("near1", "Near1", LocationType::StopPoint, 24_491_860, 487_960_580),
            stop_at("near2", "Near2", LocationType::StopPoint, 24_560_000, 487_960_000),
            stop_at("null", "Null Island", LocationType::StopPoint, 0, 0),
            stop_at("close1", "Close 1", LocationType::StopPoint, 24_500_000, 487_900_000),
            stop_at("close2", "Close 2", LocationType::StopPoint, 24_500_500, 487_900_000),
        ],
        routes: vec![route("BUS", "Bus line", RouteType::Bus)],
        trips: vec![
            trip("slow", "BUS", leg(0, 1, 0, 6_000, 500_000)),
            trip("fast", "BUS", leg(0, 2, 0, 60, 5_430_975_333)),
            trip("back", "BUS", leg(0, 1, 120, 60, 500_000)),
            trip("close", "BUS", leg(3, 4, 0, 60, 5_000)),
            trip("null", "BUS", leg(0, 2, 60, 60, 5_430_975_333)),
            trip("fine", "BUS", leg(0, 1, 0, 60, 500_000)),
        ],
        ..empty_gtfs()
    }
}

#[test]
fn duration_distance_test() {
    let gtfs = duration_distance_fixture();
    let custom_rules = CustomRules { ..Default::default() };

    let mut issues = duration_distance::validate(&gtfs, &custom_rules);
    issues.sort_by(|a, b| a.issue_type.cmp(&b.issue_type));

    assert_eq!(5, issues.len());

    assert_eq!(IssueType::Slow, issues[0].issue_type);
    assert_eq!("near1", issues[0].object_id);
    assert_eq!(String::from("near2"), issues[0].related_objects[0].id);
    assert_eq!(Some(String::from("Near1")), issues[0].object_name);

    assert_eq!(IssueType::ExcessiveSpeed, issues[1].issue_type);
    assert_eq!("near1", issues[1].object_id);
    assert_eq!(String::from("null"), issues[1].related_objects[0].id);
    assert_eq!(Some(String::from("Near1")), issues[1].object_name);

    assert_eq!(IssueType::NegativeTravelTime, issues[2].issue_type);
    assert_eq!("near1", issues[2].object_id);
    assert_eq!(String::from("near2"), issues[2].related_objects[0].id);
    assert_eq!(Some(String::from("Near1")), issues[2].object_name);

    assert_eq!(IssueType::CloseStops, issues[3].issue_type);
    assert_eq!("close1", issues[3].object_id);
    assert_eq!(String::from("close2"), issues[3].related_objects[0].id);
    assert_eq!(Some(String::from("Close 1")), issues[3].object_name);

    assert_eq!(IssueType::NullDuration, issues[4].issue_type);
    assert_eq!("near1", issues[4].object_id);
    assert_eq!(String::from("null"), issues[4].related_objects[0].id);
    assert_eq!(Some(String::from("Near1")), issues[4].object_name);

    let custom_rules = CustomRules { max_bus_speed: Some(1_000_000_000), ..Default::default() };
    let issues = duration_distance::validate(&gtfs, &custom_rules);
    assert_eq!(0, issues.iter().filter(|issue| issue.issue_type == IssueType::ExcessiveSpeed).count());
}

#[test]
fn speed_details_are_written_out() {
    let gtfs = duration_distance_fixture();
    let issues = duration_distance::validate(&gtfs, &CustomRules::default());
    let details = |t: IssueType| of_type(&issues, t)[0].details.clone().unwrap();
    assert_eq!(
        "computed speed between the stops is 325858.52 km/h (5430975 m travelled in 60 seconds)",
        details(IssueType::ExcessiveSpeed)
    );
    assert_eq!(
        "computed speed between the stops is 0.30 km/h (500 m travelled in 6000 seconds)",
        details(IssueType::Slow)
    );
    assert_eq!("duration is -60 seconds", details(IssueType::NegativeTravelTime));
    assert_eq!("distance between the stops is 5 meter(s)", details(IssueType::CloseStops));
    assert_eq!(
        "travel duration is null, but there are 5430975 meters between the stops",
        details(IssueType::NullDuration)
    );
    assert_eq!(Severity::Information, of_type(&issues, IssueType::ExcessiveSpeed)[0].severity);
    assert_eq!(Severity::Warning, of_type(&issues, IssueType::NullDuration)[0].severity);
    assert_eq!(Severity::Warning, of_type(&issues, IssueType::NegativeTravelTime)[0].severity);
}

#[test]
fn speed_limits_are_exact() {
    // 120 km/h is 2 km a minute
    assert_eq!(None, classify(2_000_000, 60, 120_000));
    assert_eq!(Some((Severity::Information, IssueType::ExcessiveSpeed)), classify(2_000_001, 60, 120_000));
    // 0.1 m/s is 6 m a minute
    assert_eq!(Some((Severity::Information, IssueType::CloseStops)), classify(9_999, 60, 120_000));
    assert_eq!(None, classify(10_000, 100, 120_000));
    assert_eq!(Some((Severity::Information, IssueType::Slow)), classify(10_000, 101, 120_000));
    assert_eq!(None, classify(500_000, 0, 120_000));
    assert_eq!(Some((Severity::Warning, IssueType::NullDuration)), classify(500_001, 0, 120_000));
    assert_eq!(Some((Severity::Warning, IssueType::NegativeTravelTime)), classify(10_000, -1, 120_000));
}

#[test]
fn default_maximum_speeds() {
    let rules = CustomRules::default();
    assert_eq!(100_000, rules.max_speed(RouteType::Tramway));
    assert_eq!(140_000, rules.max_speed(RouteType::Subway));
    assert_eq!(320_000, rules.max_speed(RouteType::Rail));
    assert_eq!(120_000, rules.max_speed(RouteType::Bus));
    assert_eq!(90_000, rules.max_speed(RouteType::Ferry));
    assert_eq!(30_000, rules.max_speed(RouteType::CableCar));
    assert_eq!(45_000, rules.max_speed(RouteType::Gondola));
    assert_eq!(40_000, rules.max_speed(RouteType::Funicular));
    assert_eq!(120_000, rules.max_speed(RouteType::Coach));
    assert_eq!(1_000_000, rules.max_speed(RouteType::Air));
    assert_eq!(50_000, rules.max_speed(RouteType::Taxi));
    assert_eq!(120_000, rules.max_speed(RouteType::Other(1700)));
    let rules = CustomRules { max_other_speed: Some(7), ..Default::default() };
    assert_eq!(7, rules.max_speed(RouteType::Other(1700)));
    assert_eq!(120_000, rules.max_speed(RouteType::Bus));
}

#[test]
fn trip_with_unknown_route_gives_no_speed_issue() {
    let mut gtfs = duration_distance_fixture();
    gtfs.trips.push(trip("lost", "NOWHERE", vec![]));
    assert!(duration_distance::validate(&gtfs, &CustomRules::default()).is_empty());
    assert_eq!(
        "NOWHERE",
        duration_distance::validate_speeds(&gtfs, &CustomRules::default()).unwrap_err().id
    );
}

#[test]
fn test_optimisation_route_trips() {
    let gtfs = Gtfs {
        stops: vec![
            stop_at("stop001", "Stop 1", LocationType::StopPoint, 24_500_000, 487_900_000),
            stop_at("stop002", "Stop 2", LocationType::StopPoint, 24_500_500, 487_900_000),
        ],
        routes: vec![route("route1", "Line 1", RouteType::Bus), route("route2", "Line 2", RouteType::Bus)],
        trips: vec![
            trip("trip1", "route1", leg(0, 1, 0, 60, 5_000)),
            trip("trip2", "route1", leg(0, 1, 600, 660, 5_000)),
            trip("trip3", "route2", leg(1, 0, 0, 60, 5_000)),
            trip("trip4", "route2", leg(0, 1, 600, 660, 5_000)),
        ],
        ..empty_gtfs()
    };
    let custom_rules = CustomRules { ..Default::default() };

    let mut issues = duration_distance::validate(&gtfs, &custom_rules);

    assert_eq!(1, issues.len());
    // irrelevant to the test, but this acts as a guard in case someone modifies the fixtures
    assert_eq!(IssueType::CloseStops, issues[0].issue_type);

    issues[0].related_objects.sort_by(|a, b| a.id.cmp(&b.id));

    assert_eq!(3, issues[0].related_objects.len());

    // each route appears only once, whatever the number of trips
    let ids: BTreeSet<_> = issues[0].related_objects.iter().map(|r| r.id.as_str()).collect();
    assert_eq!(ids, BTreeSet::from(["stop002", "route2", "route1"]));
}

fn fare_fixture() -> Gtfs {
    Gtfs {
        fare_attributes: vec![
            fare("50", "", "USD", Transfers::Unlimited),
            fare("61", "1.75", "ABC", Transfers::Other(5)),
            FareAttribute { transfer_duration: Some(-1), ..fare("62", "2", "EUR", Transfers::NoTransfer) },
            FareAttribute { transfer_duration: Some(0), ..fare("63", "2", "EUR", Transfers::TwoTransfers) },
        ],
        ..empty_gtfs()
    }
}

#[test]
fn test_missing_price() {
    let issues = fare_attributes::validate(&fare_fixture());
    let missing_price_issue = of_type(&issues, IssueType::MissingPrice);

    assert_eq!(1, missing_price_issue.len());
    assert_eq!("50", missing_price_issue[0].object_id);
    assert_eq!(IssueType::MissingPrice, missing_price_issue[0].issue_type);
    assert_eq!(Some(ObjectType::Fare), missing_price_issue[0].object_type);
}

#[test]
fn test_valid_currency() {
    let issues = fare_attributes::validate(&fare_fixture());
    let invalid_currency_issue = of_type(&issues, IssueType::InvalidCurrency);

    assert_eq!(1, invalid_currency_issue.len());
    assert_eq!("61", invalid_currency_issue[0].object_id);
    assert_eq!(IssueType::InvalidCurrency, invalid_currency_issue[0].issue_type);
}

#[test]
fn test_valid_transfers() {
    let issues = fare_attributes::validate(&fare_fixture());
    let invalid_transfers_issue = of_type(&issues, IssueType::InvalidTransfers);

    assert_eq!(1, invalid_transfers_issue.len());
    assert_eq!("61", invalid_transfers_issue[0].object_id);
    assert_eq!(IssueType::InvalidTransfers, invalid_transfers_issue[0].issue_type);
}

#[test]
fn negative_transfer_duration_is_invalid() {
    let issues = fare_attributes::validate(&fare_fixture());
    let invalid = of_type(&issues, IssueType::InvalidTransferDuration);
    assert_eq!(1, invalid.len());
    assert_eq!("62", invalid[0].object_id);
    assert_eq!(Severity::Error, invalid[0].severity);
}

fn feed_info_fixture() -> Gtfs {
    Gtfs {
        feed_info: vec![feed("SNCF", "", "zz"), feed("BIBUS", "bibus.fr", ""), feed("Star", "https://star.fr", "fr")],
        calendar: vec![Calendar { id: "WE".to_owned(), start_date: Date { days: 736_330 }, end_date: Date { days: 736_344 } }],
        ..empty_gtfs()
    }
}

#[test]
fn feed_info_test_missing_url() {
    let issues = feed_info::validate(&feed_info_fixture());
    let missing_url_issue = of_type(&issues, IssueType::MissingUrl);

    assert_eq!(1, missing_url_issue.len());
    assert_eq!("SNCF", missing_url_issue[0].object_name.as_ref().unwrap());
    assert_eq!(IssueType::MissingUrl, missing_url_issue[0].issue_type);
}

#[test]
fn feed_info_test_valid_url() {
    let issues = feed_info::validate(&feed_info_fixture());
    let invalid_url_issue = of_type(&issues, IssueType::InvalidUrl);

    assert_eq!(1, invalid_url_issue.len());
    assert_eq!(IssueType::InvalidUrl, invalid_url_issue[0].issue_type);
    assert_eq!(
        Some("The feed_publisher_url (in feed_info.txt) bibus.fr is invalid".to_string()),
        invalid_url_issue[0].details
    );
}

#[test]
fn test_missing_lang() {
    let issues = feed_info::validate(&feed_info_fixture());
    let missing_lang_issue = of_type(&issues, IssueType::MissingLanguage);

    assert_eq!(1, missing_lang_issue.len());
    assert_eq!(IssueType::MissingLanguage, missing_lang_issue[0].issue_type);
    assert_eq!(Severity::Warning, missing_lang_issue[0].severity);
}

#[test]
fn test_valid_lang() {
    let issues = feed_info::validate(&feed_info_fixture());
    let invalid_lang_issue: Vec<_> = issues
        .iter()
        .filter(|issue| issue.issue_type == IssueType::InvalidLanguage)
        .filter(|issue| issue.object_name == Some("SNCF".to_string()))
        .collect();
    assert_eq!(1, invalid_lang_issue.len());
    assert_eq!(IssueType::InvalidLanguage, invalid_lang_issue[0].issue_type);
    assert_eq!(Some("Language code zz does not exist".to_string()), invalid_lang_issue[0].details);
}

#[test]
fn test_valid_lang_upper() {
    assert!(!feed_info::invalid_lang(&FeedInfo {
        name: "bob".to_owned(),
        url: "http://bob.com".to_owned(),
        lang: "FR".to_owned(),
        start_date: None,
        end_date: None,
        contact_email: None,
    }));
}

#[test]
fn languages_of_each_length() {
    let lang = |code: &str| !feed_info::invalid_lang(&feed("bob", "http://bob.com", code));
    assert!(lang("fr"));
    assert!(lang("fra"));
    assert!(lang("fr_FR"));
    assert!(!lang("f"));
    assert!(!lang("xx"));
    assert!(!lang("xxx"));
    assert!(!lang("a_language_too_long"));
}

#[test]
fn interpolated_stoptimes_test_stop_points() {
    // trip1 lacks times at a stop in the middle, which is no problem;
    // trip2 lacks them at its first stop
    let unset = |stop: usize, sequence: u32| StopTime { arrival_time: None, departure_time: None, ..st(stop, 0, 0, sequence) };
    let gtfs = Gtfs {
        stops: vec![stop("a", "A", LocationType::StopPoint), stop("b", "B", LocationType::StopPoint)],
        trips: vec![
            trip("trip1", "r", vec![st(0, 0, 0, 1), unset(1, 2), st(0, 60, 60, 3)]),
            trip("trip2", "r", vec![unset(0, 1), st(1, 30, 30, 2), st(0, 60, 60, 3)]),
            trip("trip3", "r", vec![]),
        ],
        ..empty_gtfs()
    };
    let issues = interpolated_stoptimes::validate(&gtfs);

    assert_eq!(1, issues.len());
    let issue = &issues[0];

    assert_eq!(issue.issue_type, IssueType::ImpossibleToInterpolateStopTimes);
    assert_eq!("trip2", issue.object_id);
    assert_eq!(Severity::Warning, issue.severity);
}

fn route_type_fixture() -> Gtfs {
    Gtfs {
        routes: vec![route("CITY", "City", RouteType::Other(42)), route("AB", "Airport", RouteType::Bus)],
        agencies: vec![agency_of(Some("1"), "BIBUS", "http://www.bibus.fr", "Europe/Paris")],
        ..empty_gtfs()
    }
}

#[test]
fn route_type_test_valid() {
    let issues = routes::validate(&route_type_fixture());

    assert_eq!(1, issues.len());
    assert_eq!("CITY", issues[0].object_id);
    assert_eq!(IssueType::InvalidRouteType, issues[0].issue_type);
}

#[test]
fn test_invalid_route_type() {
    let issues = routes::validate(&route_type_fixture());

    assert_eq!(1, issues.len());
    assert_eq!("CITY", issues[0].object_id);
    assert_eq!(IssueType::InvalidRouteType, issues[0].issue_type);
    assert_eq!(Severity::Information, issues[0].severity);
    assert_eq!(
        Some("The route type '42' is not part of the main GTFS specification".to_string()),
        issues[0].details
    );
}

#[test]
fn test_missing_agency_id() {
    let gtfs = Gtfs {
        routes: vec![
            Route { agency_id: Some("1".to_owned()), ..route("r_1", "One", RouteType::Bus) },
            route("r_2", "Two", RouteType::Bus),
        ],
        agencies: vec![
            agency_of(Some("1"), "BIBUS", "http://www.bibus.fr", "Europe/Paris"),
            agency_of(Some("2"), "Ter", "http://www.ter.fr", "Europe/Paris"),
        ],
        ..empty_gtfs()
    };
    let issues = routes::validate(&gtfs);

    assert_eq!(1, issues.len());
    assert_eq!("r_2", issues[0].object_id);
    assert_eq!(IssueType::MissingAgencyId, issues[0].issue_type);
    assert_eq!(Some("The agency ID must be filled for route 'r_2'".to_string()), issues[0].details);
}

fn shapes_fixture() -> Gtfs {
    Gtfs {
        shapes: vec![
            ShapeLine {
                id: "A_shp".to_owned(),
                points: vec![point("A_shp", 0, 0, 0), point("A_shp", 1, 910_000_000, 10)],
            },
            ShapeLine {
                id: "B_shp".to_owned(),
                points: vec![point("B_shp", 0, 366_410_000, -1_168_170_000), point("B_shp", 1, 366_420_000, -1_168_180_000)],
            },
        ],
        trips: vec![
            Trip { shape_id: Some("B_shp".to_owned()), ..trip("STBA", "r", vec![]) },
            Trip { shape_id: Some("non_existing_shape_id".to_owned()), ..trip("AB1", "r", vec![]) },
            trip("AB2", "r", vec![]),
        ],
        ..empty_gtfs()
    }
}

#[test]
fn test_missing_coord() {
    let issues = shapes::validate(&shapes_fixture());
    let missing_coord_issue = of_type(&issues, IssueType::MissingCoordinates);

    assert_eq!(1, missing_coord_issue.len());
    assert_eq!("A_shp", missing_coord_issue[0].object_id);
    assert_eq!(IssueType::MissingCoordinates, missing_coord_issue[0].issue_type);
}

#[test]
fn shapes_test_valid() {
    let issues = shapes::validate(&shapes_fixture());
    let invalid_coord_issue = of_type(&issues, IssueType::InvalidCoordinates);

    assert_eq!(1, invalid_coord_issue.len());
    assert_eq!("A_shp", invalid_coord_issue[0].object_id);
    assert_eq!(IssueType::InvalidCoordinates, invalid_coord_issue[0].issue_type);
}

#[test]
fn test_invalid_shape_id() {
    let issues = shapes::validate(&shapes_fixture());
    let invalid_shape_id = of_type(&issues, IssueType::InvalidShapeId);

    assert_eq!(1, invalid_shape_id.len());
    assert_eq!("AB1", invalid_shape_id[0].object_id);
    assert_eq!("invalid shape id: non_existing_shape_id", invalid_shape_id[0].details.as_ref().unwrap());
    assert_eq!(IssueType::InvalidShapeId, invalid_shape_id[0].issue_type);
}

#[test]
fn test_unused_shape_id() {
    let issues = shapes::validate(&shapes_fixture());
    let unused_shape_id = of_type(&issues, IssueType::UnusedShapeId);

    assert_eq!(1, unused_shape_id.len());
    assert_eq!("A_shp", unused_shape_id[0].object_id);
    assert_eq!(IssueType::UnusedShapeId, unused_shape_id[0].issue_type);
}

#[test]
fn trip_without_shape_is_noted() {
    let issues = shapes::validate(&shapes_fixture());
    let no_shape = of_type(&issues, IssueType::NoShape);
    assert_eq!(1, no_shape.len());
    assert_eq!("AB2", no_shape[0].object_id);
    assert_eq!(Severity::Information, no_shape[0].severity);
    assert_eq!(Some(ObjectType::Trip), no_shape[0].object_type);
}

#[test]
fn shape_point_with_one_zero_coordinate_lacks_coordinates() {
    assert!(!shapes::has_coord(&point("s", 0, 0, 10)));
    assert!(!shapes::has_coord(&point("s", 0, 10, 0)));
    assert!(shapes::has_coord(&point("s", 0, 10, 10)));
}

#[test]
fn test_location_type() {
    let gtfs = Gtfs {
        stops: vec![stop("STOP_AREA", "Area", LocationType::StopArea), stop("POINT", "Point", LocationType::StopPoint)],
        trips: vec![
            trip("trip1", "r", vec![st(0, 0, 0, 1), st(1, 60, 60, 2)]),
            trip("trip2", "r", vec![st(1, 0, 0, 1), st(0, 60, 60, 2)]),
        ],
        ..empty_gtfs()
    };
    let issues = stop_times::validate(&gtfs);

    assert_eq!(1, issues.len());
    let first_issue = &issues[0];
    assert_eq!(IssueType::InvalidStopLocationTypeInTrip, first_issue.issue_type);
    assert_eq!("STOP_AREA", first_issue.object_id);
    // 2 trips are linked to the stop 'STOP_AREA'
    assert_eq!(2, first_issue.related_objects.len());
    assert_eq!(Some("A StopArea cannot be referenced by a stop time".to_string()), first_issue.details);
}

#[test]
fn no_more_than_twenty_trips_are_named() {
    let gtfs = Gtfs {
        stops: vec![stop("STOP_AREA", "Area", LocationType::StopArea)],
        trips: (0..25).map(|i| trip(&format!("trip{}", i), "r", vec![st(0, 0, 0, 1)])).collect(),
        ..empty_gtfs()
    };
    let issues = stop_times::check_location_type(&gtfs);
    assert_eq!(1, issues.len());
    assert_eq!(20, issues[0].related_objects.len());
    assert_eq!("trip0", issues[0].related_objects[0].id);
    assert_eq!("trip19", issues[0].related_objects[19].id);
}

#[test]
fn test_stop_sequences() {
    let gtfs = Gtfs {
        stops: vec![
            stop("stopA", "Stop A", LocationType::StopPoint),
            stop("stopB", "Stop B", LocationType::StopPoint),
            stop("stopC", "Stop C", LocationType::StopPoint),
        ],
        trips: vec![
            trip("trip1", "r", vec![st(0, 0, 0, 1), st(1, 60, 60, 2), st(2, 120, 120, 3)]),
            trip("trip2", "r", vec![st(0, 0, 0, 1), st(1, 60, 60, 2), st(2, 120, 120, 2)]),
            trip("trip3", "r", vec![st(0, 0, 0, 1), st(1, 60, 60, 1), st(2, 120, 120, 3)]),
        ],
        ..empty_gtfs()
    };
    let mut issues = stop_times::validate(&gtfs);

    assert_eq!(2, issues.len());

    issues.sort_by_key(|a| a.object_id.to_string());
    let first_issue = &mut issues[0];
    assert_eq!(IssueType::DuplicateStopSequence, first_issue.issue_type);
    assert_eq!("trip2", first_issue.object_id);

    first_issue.related_objects.sort_by_key(|ro| ro.id.clone());
    assert_eq!(
        vec![
            RelatedObject {
                id: "stopB".to_string(),
                name: Some("Stop B".to_string()),
                object_type: Some(ObjectType::Stop)
            },
            RelatedObject {
                id: "stopC".to_string(),
                name: Some("Stop C".to_string()),
                object_type: Some(ObjectType::Stop)
            },
        ],
        first_issue.related_objects
    );
    assert_eq!("trip3", &issues[1].object_id);
    assert_eq!(2, issues[1].related_objects.len());
}

#[test]
fn test_times_increase() {
    let gtfs = Gtfs {
        stops: vec![stop("a", "A", LocationType::StopPoint), stop("b", "B", LocationType::StopPoint)],
        trips: vec![
            trip("ITB1", "r", vec![st(0, 0, 0, 7), st(1, 120, 60, 8), st(0, 180, 180, 9)]),
            trip("ITB2", "r", vec![st(0, 0, 0, 1), st(1, 60, 60, 2)]),
        ],
        ..empty_gtfs()
    };
    let issues = stop_times::validate(&gtfs);

    assert_eq!(1, issues.len());
    let first_issue = &issues[0];
    assert_eq!(IssueType::NegativeStopDuration, first_issue.issue_type);
    assert_eq!("ITB1", first_issue.object_id);
    assert_eq!(
        Some("Departure time before arrival time at stop sequence 8"),
        first_issue.details.as_deref()
    );
}

#[test]
fn unusable_trip_test() {
    let gtfs = Gtfs {
        stops: vec![stop("a", "A", LocationType::StopPoint), stop("b", "B", LocationType::StopPoint)],
        trips: vec![
            trip("AB1", "r", vec![st(0, 0, 0, 1)]),
            trip("AB2", "r", vec![st(0, 0, 0, 1), st(1, 60, 60, 2)]),
        ],
        ..empty_gtfs()
    };
    let issues = unusable_trip::validate(&gtfs);

    assert_eq!(1, issues.len());
    assert_eq!("AB1", issues[0].object_id);
    assert_eq!(IssueType::UnusableTrip, issues[0].issue_type);
    assert_eq!(Severity::Error, issues[0].severity);
}

#[test]
fn trip_that_returns_to_one_stop_is_unusable() {
    let gtfs = Gtfs {
        stops: vec![stop("a", "A", LocationType::StopPoint)],
        trips: vec![trip("loop", "r", vec![st(0, 0, 0, 1), st(0, 60, 60, 2)]), trip("none", "r", vec![])],
        ..empty_gtfs()
    };
    assert_eq!(2, unusable_trip::validate(&gtfs).len());
}

#[test]
fn unused_stop_test() {
    let gtfs = Gtfs {
        stops: vec![
            child("used", "Used", LocationType::StopPoint, "station"),
            stop("station", "Station", LocationType::StopArea),
            stop("BOGUS", "Bogus", LocationType::StopPoint),
            stop("door", "Door", LocationType::StationEntrance),
            child("quiet", "Quiet", LocationType::StopPoint, "BOGUS"),
        ],
        trips: vec![trip("t", "r", vec![st(0, 0, 0, 1)])],
        ..empty_gtfs()
    };
    let issues = unused_stop::validate(&gtfs);

    // the parent of a stop that no trip serves is not used through it
    assert_eq!(2, issues.len());
    assert_eq!("BOGUS", issues[0].object_id);
    assert_eq!("quiet", issues[1].object_id);
    assert_eq!(IssueType::UnusedStop, issues[0].issue_type);
    assert_eq!(Severity::Information, issues[0].severity);
}

#[test]
fn test_generated_geojson() {
    let gtfs = duration_distance_fixture();
    let issues = duration_distance::validate(&gtfs, &CustomRules::default());
    let speed_issues = of_type(&issues, IssueType::ExcessiveSpeed);

    assert_eq!(1, speed_issues.len());
    let issue = speed_issues[0];
    let geojson = generate_issue_visualization(issue, &gtfs).unwrap();
    // 3 features: 2 points for the stops and 1 for the line between the stops
    assert_eq!(3, geojson.features.len());
    let near1 = Position { longitude: 24_491_860, latitude: 487_960_580 };
    let null = Position { longitude: 0, latitude: 0 };
    let text = |a: &str, b: &str| (a.to_string(), b.to_string());
    assert_eq!(
        vec![
            Feature {
                geometry: Some(Geometry::Point(near1)),
                properties: Some(vec![text("id", "near1"), text("name", "Near1")]),
            },
            Feature {
                geometry: Some(Geometry::Point(null)),
                properties: Some(vec![text("id", "null"), text("name", "Null Island")]),
            },
            Feature {
                geometry: Some(Geometry::LineString(near1, null)),
                properties: Some(vec![text(
                    "details",
                    "computed speed between the stops is 325858.52 km/h (5430975 m travelled in 60 seconds)"
                )]),
            },
        ],
        geojson.features
    );
}

#[test]
fn no_line_between_stops_at_one_place() {
    let gtfs = Gtfs {
        stops: vec![
            stop("a", "A", LocationType::StopPoint),
            stop("b", "B", LocationType::StopPoint),
            Stop { longitude: None, ..stop("c", "C", LocationType::StopPoint) },
        ],
        ..empty_gtfs()
    };
    let issue = Issue::new_with_obj(Severity::Information, IssueType::DuplicateStops, &gtfs.stops[0])
        .add_related_object(&gtfs.stops[1])
        .add_related_object(&gtfs.stops[2])
        .add_related_object(&route("r", "R", RouteType::Bus));
    let features = generate_issue_visualization(&issue, &gtfs).unwrap().features;
    // three points, one of them without a place, and two lines without a shape
    assert_eq!(5, features.len());
    assert_eq!(None, features[2].geometry);
    assert_eq!(None, features[3].geometry);
    assert_eq!(None, features[3].properties);
    assert_eq!(None, features[4].geometry);
    let about_a_route = Issue::new_with_obj(Severity::Error, IssueType::MissingName, &route("r", "R", RouteType::Bus));
    assert_eq!(None, generate_issue_visualization(&about_a_route, &gtfs));
}
