//! What holds of every report.
use vstd::prelude::*;
use crate::collect::gather;
use crate::custom_rules::CustomRules;
use crate::issues::{texts, IssueType, IssueView, ObjectType, Severity, ISSUE_TYPE_COUNT};
use crate::model::{Gtfs, LoadError, RawGtfs, Route, Stop, Trip};
use crate::validate::{all_issues, archive_report, bucket_of, buckets, capped, count_of, counts, lemma_of_type_len, linked_part, of_type, raw_part, report, Linked, Response};
use crate::custom_rules::max_speed_of;
use crate::validators::duration_distance::{distance_and_duration_of, findings_upto, leg_findings, legs_of, merged, on_segment, route_of, speed_issues, trip_findings, Finding};
use crate::validators::invalid_reference::known_of;
use crate::validators::stop_times::{noted, Visit};
use crate::collect::places;
use crate::validators::{agency, calendar, check_id, check_name, duplicate_stops, fare_attributes, feed_info, file_presence, interpolated_stoptimes, invalid_reference, raw_gtfs, routes, shapes, stop_times, sub_folder, unused_stop, unusable_trip};

verus! {

/// The counts and the categories of a report go side by side over the
/// first `n` ranks: the same categories in the same order, no category
/// with more issues than its count, a category that was not cut with as
/// many, and none with more than the maximum.
proof fn lemma_counts_upto(all: Seq<IssueView>, max: usize, n: int)
    requires
        0 <= n <= ISSUE_TYPE_COUNT,
        all.len() <= usize::MAX,
    ensures
        gather(places(ISSUE_TYPE_COUNT as nat).take(n), bucket_of(all, max)).len() == gather(
            places(ISSUE_TYPE_COUNT as nat).take(n),
            count_of(all),
        ).len(),
        forall|k: int|
            0 <= k < gather(places(ISSUE_TYPE_COUNT as nat).take(n), bucket_of(all, max)).len() ==> {
                let b = #[trigger] gather(places(ISSUE_TYPE_COUNT as nat).take(n), bucket_of(all, max))[k];
                let c = gather(places(ISSUE_TYPE_COUNT as nat).take(n), count_of(all))[k];
                &&& b.0 == c.0
                &&& b.1.len() <= c.1
                &&& b.1.len() <= max
                &&& c.1 <= max ==> b.1.len() == c.1
                &&& c.1 >= 1
                &&& b.1 == capped(of_type(all, b.0), max)
                &&& c.1 == of_type(all, b.0).len()
            },
    decreases n,
{
    let ranks = places(ISSUE_TYPE_COUNT as nat);
    if n == 0 {
        assert(ranks.take(0) =~= Seq::empty());
    } else {
        lemma_counts_upto(all, max, n - 1);
        crate::collect::lemma_gather_step(ranks, n - 1, bucket_of(all, max));
        crate::collect::lemma_gather_step(ranks, n - 1, count_of(all));
        lemma_of_type_len(all, IssueType::at((n - 1) as nat));
    }
}

/// In every report the count of a category is at least the number of its
/// issues in the report, and equal to it where the category was not cut;
/// no category has more issues than the maximum. The counts and the
/// categories list the same categories in the same order.
pub proof fn lemma_counts_bound_the_report(all: Seq<IssueView>, max: usize)
    requires
        all.len() <= usize::MAX,
    ensures
        buckets(all, max).len() == counts(all).len(),
        forall|k: int|
            0 <= k < buckets(all, max).len() ==> {
                let b = #[trigger] buckets(all, max)[k];
                let c = counts(all)[k];
                &&& b.0 == c.0
                &&& b.1.len() <= c.1
                &&& b.1.len() <= max
                &&& c.1 <= max ==> b.1.len() == c.1
                &&& c.1 == of_type(all, b.0).len()
            },
{
    lemma_counts_upto(all, max, ISSUE_TYPE_COUNT as int);
    assert(places(ISSUE_TYPE_COUNT as nat).take(ISSUE_TYPE_COUNT as int) =~= places(ISSUE_TYPE_COUNT as nat));
}

/// The categories of a report that come from the first `n` ranks are of
/// those ranks, in rising order.
proof fn lemma_ranks_upto(all: Seq<IssueView>, max: usize, n: int)
    requires
        0 <= n <= ISSUE_TYPE_COUNT,
    ensures
        forall|k: int|
            0 <= k < gather(places(ISSUE_TYPE_COUNT as nat).take(n), bucket_of(all, max)).len() ==> (#[trigger] gather(
                places(ISSUE_TYPE_COUNT as nat).take(n),
                bucket_of(all, max),
            )[k]).0.rank() < n,
        forall|j: int, k: int|
            0 <= j < k < gather(places(ISSUE_TYPE_COUNT as nat).take(n), bucket_of(all, max)).len() ==> (#[trigger] gather(
                places(ISSUE_TYPE_COUNT as nat).take(n),
                bucket_of(all, max),
            )[j]).0.rank() < (#[trigger] gather(places(ISSUE_TYPE_COUNT as nat).take(n), bucket_of(all, max))[k]).0.rank(),
    decreases n,
{
    let ranks = places(ISSUE_TYPE_COUNT as nat);
    if n == 0 {
        assert(ranks.take(0) =~= Seq::empty());
    } else {
        lemma_ranks_upto(all, max, n - 1);
        crate::collect::lemma_gather_step(ranks, n - 1, bucket_of(all, max));
        assert(IssueType::at((n - 1) as nat).rank() == n - 1);
    }
}

/// The categories of a report come in the order of the enumeration, each once.
pub proof fn lemma_categories_are_in_order(all: Seq<IssueView>, max: usize)
    ensures
        forall|j: int, k: int|
            0 <= j < k < buckets(all, max).len() ==> (#[trigger] buckets(all, max)[j]).0.rank() < (#[trigger] buckets(
                all,
                max,
            )[k]).0.rank(),
{
    lemma_ranks_upto(all, max, ISSUE_TYPE_COUNT as int);
    assert(places(ISSUE_TYPE_COUNT as nat).take(ISSUE_TYPE_COUNT as int) =~= places(ISSUE_TYPE_COUNT as nat));
}

/// With a maximum of one, every category of a report has exactly one
/// issue, the first of its category, and its count is that of all the
/// issues of the category.
pub proof fn lemma_maximum_of_one(all: Seq<IssueView>)
    requires
        all.len() <= usize::MAX,
    ensures
        forall|k: int|
            0 <= k < buckets(all, 1).len() ==> {
                let b = #[trigger] buckets(all, 1)[k];
                &&& b.1.len() == 1
                &&& b.1[0] == of_type(all, b.0)[0]
                &&& counts(all)[k].1 == of_type(all, b.0).len()
            },
{
    lemma_counts_upto(all, 1, ISSUE_TYPE_COUNT as int);
    assert(places(ISSUE_TYPE_COUNT as nat).take(ISSUE_TYPE_COUNT as int) =~= places(ISSUE_TYPE_COUNT as nat));
}

/// Two reports on the same feed with the same maximum and the same rules
/// hold the same.
pub proof fn lemma_same_feed_same_report(raw: RawGtfs, linked: Result<Linked, LoadError>, max_issues: usize, rules: CustomRules, first: Response, second: Response)
    requires
        first@ == report(raw, linked, max_issues, rules),
        second@ == report(raw, linked, max_issues, rules),
    ensures
        first@ == second@,
{
}

/// Whether an issue is fatal only where its category may be: an archive
/// or a model that could not be read, a mandatory file that is missing,
/// a reference that points at nothing.
pub open spec fn well_graded(i: IssueView) -> bool {
    i.severity == Severity::Fatal ==> (i.issue_type == IssueType::InvalidArchive || i.issue_type
        == IssueType::UnloadableModel || i.issue_type == IssueType::MissingMandatoryFile || i.issue_type
        == IssueType::InvalidReference)
}

/// Whether every issue of a list is well graded.
pub open spec fn all_graded(s: Seq<IssueView>) -> bool {
    forall|k: int| 0 <= k < s.len() ==> well_graded(#[trigger] s[k])
}

proof fn lemma_gather_graded<T>(s: Seq<T>, f: spec_fn(T) -> Seq<IssueView>)
    requires
        forall|x: T| all_graded(#[trigger] f(x)),
    ensures
        all_graded(gather(s, f)),
    decreases s.len(),
{
    if s.len() > 0 {
        lemma_gather_graded(s.drop_last(), f);
        assert(all_graded(f(s.last())));
    }
}

proof fn lemma_merged_graded(fs: Seq<Finding>)
    requires
        forall|k: int| 0 <= k < fs.len() ==> (#[trigger] fs[k]).severity != Severity::Fatal,
    ensures
        all_graded(merged(fs)),
    decreases fs.len(),
{
    if fs.len() > 0 {
        assert forall|k: int| 0 <= k < fs.drop_last().len() implies (#[trigger] fs.drop_last()[k]).severity != Severity::Fatal by {
            assert(fs.drop_last()[k] == fs[k]);
        }
        lemma_merged_graded(fs.drop_last());
        assert(fs.last() == fs[fs.len() - 1]);
    }
}

proof fn lemma_trip_findings_calm(stops: Seq<Stop>, route: Route, rules: CustomRules, trip: Trip, legs: nat)
    ensures
        forall|k: int| 0 <= k < trip_findings(stops, route, rules, trip, legs).len() ==> (#[trigger] trip_findings(stops, route, rules, trip, legs)[k]).severity != Severity::Fatal,
    decreases legs,
{
    if legs > 0 {
        lemma_trip_findings_calm(stops, route, rules, trip, (legs - 1) as nat);
    }
}

proof fn lemma_findings_calm(gtfs: Gtfs, rules: CustomRules, n: nat)
    ensures
        forall|k: int| 0 <= k < findings_upto(gtfs, rules, n).len() ==> (#[trigger] findings_upto(gtfs, rules, n)[k]).severity != Severity::Fatal,
    decreases n,
{
    if n > 0 {
        lemma_findings_calm(gtfs, rules, (n - 1) as nat);
        let trip = gtfs.trips@[n - 1];
        match route_of(gtfs.routes@, trip.route_id@) {
            Some(route) => {
                lemma_trip_findings_calm(gtfs.stops@, route, rules, trip, legs_of(trip));
            },
            None => {},
        }
    }
}

proof fn lemma_noted_graded(vs: Seq<Visit>)
    ensures
        all_graded(noted(vs)),
    decreases vs.len(),
{
    if vs.len() > 0 {
        lemma_noted_graded(vs.drop_last());
    }
}

proof fn lemma_graded_add(a: Seq<IssueView>, b: Seq<IssueView>)
    requires
        all_graded(a),
        all_graded(b),
    ensures
        all_graded(a + b),
{
}

proof fn lemma_repeats_graded<T: crate::issues::Described>(rows: Seq<T>)
    ensures
        all_graded(raw_gtfs::duplicate_issues(rows)),
{
    lemma_gather_graded(places(rows.len()), raw_gtfs::repeated_of(rows));
}

proof fn lemma_raw_issues_graded(raw: RawGtfs)
    ensures
        all_graded(raw_gtfs::raw_issues(raw)),
{
    lemma_repeats_graded(raw.stops.rows());
    lemma_repeats_graded(raw.routes.rows());
    lemma_repeats_graded(raw.trips.rows());
    lemma_repeats_graded(raw.agencies.rows());
    lemma_repeats_graded(raw.pathways.rows());
    lemma_repeats_graded(raw.calendar.rows());
    lemma_repeats_graded(raw.fare_attributes.rows());
    lemma_gather_graded(places(raw.shapes.rows().len()), raw_gtfs::repeated_shape_of(raw.shapes.rows()));
    let a = raw_gtfs::duplicate_issues(raw.stops.rows());
    let b = a + raw_gtfs::duplicate_issues(raw.routes.rows());
    let c = b + raw_gtfs::duplicate_issues(raw.trips.rows());
    let d = c + raw_gtfs::duplicate_issues(raw.agencies.rows());
    let e = d + raw_gtfs::duplicate_issues(raw.pathways.rows());
    let f = e + raw_gtfs::duplicate_issues(raw.calendar.rows());
    let g = f + raw_gtfs::duplicate_issues(raw.fare_attributes.rows());
    lemma_graded_add(a, raw_gtfs::duplicate_issues(raw.routes.rows()));
    lemma_graded_add(b, raw_gtfs::duplicate_issues(raw.trips.rows()));
    lemma_graded_add(c, raw_gtfs::duplicate_issues(raw.agencies.rows()));
    lemma_graded_add(d, raw_gtfs::duplicate_issues(raw.pathways.rows()));
    lemma_graded_add(e, raw_gtfs::duplicate_issues(raw.calendar.rows()));
    lemma_graded_add(f, raw_gtfs::duplicate_issues(raw.fare_attributes.rows()));
    lemma_graded_add(g, raw_gtfs::shape_duplicate_issues(raw.shapes.rows()));
}

proof fn lemma_relationship_graded(refs: Seq<invalid_reference::ReferenceView>, ids: Option<Seq<Seq<char>>>, object_type: ObjectType, details: Seq<char>)
    ensures
        all_graded(invalid_reference::relationship_issues(refs, ids, object_type, details)),
{
    lemma_gather_graded(places(refs.len()), invalid_reference::broken_of(refs, ids, object_type, details));
}

proof fn lemma_references_graded(raw: RawGtfs)
    ensures
        all_graded(invalid_reference::reference_issues(known_of(raw), raw)),
{
    let known = known_of(raw);
    lemma_relationship_graded(invalid_reference::stop_time_trips(raw.stop_times.rows()), known.of(ObjectType::Trip), ObjectType::Trip, "The trip is referenced by a stop time but does not exist"@);
    lemma_relationship_graded(invalid_reference::stop_time_stops(raw.stop_times.rows()), known.of(ObjectType::Stop), ObjectType::Stop, "The stop is referenced by a stop time but does not exist"@);
    lemma_relationship_graded(invalid_reference::trip_services(raw.trips.rows()), known.of(ObjectType::Calendar), ObjectType::Calendar, "The service is referenced by a trip but does not exist"@);
    lemma_relationship_graded(invalid_reference::trip_routes(raw.trips.rows()), known.of(ObjectType::Route), ObjectType::Route, "The route is referenced by a trip but does not exist"@);
    lemma_relationship_graded(gather(raw.routes.rows(), invalid_reference::route_agency_of()), known.of(ObjectType::Agency), ObjectType::Agency, "The agency is referenced by a route but does not exist"@);
    lemma_relationship_graded(gather(raw.stops.rows(), invalid_reference::stop_parent_of()), known.of(ObjectType::Stop), ObjectType::Stop, "The stop is referenced as a stop's parent_station but does not exist"@);
    let a = invalid_reference::stop_time_issues(known, raw.stop_times.rows());
    let b = invalid_reference::trip_issues(known, raw.trips.rows());
    let c = invalid_reference::route_issues(known, raw.routes.rows());
    let d = invalid_reference::stop_issues(known, raw.stops.rows());
    lemma_graded_add(a, b);
    lemma_graded_add(a + b, c);
    lemma_graded_add(a + b + c, d);
}

proof fn lemma_files_graded(files: Seq<Seq<char>>)
    ensures
        all_graded(file_presence::file_issues(files)),
        all_graded(sub_folder::sub_folder_issues(files)),
{
    lemma_gather_graded(file_presence::mandatory_names(), file_presence::missing_file_of(files));
    lemma_gather_graded(files, file_presence::extra_file_of());
}

/// Every issue that the rules on the rows find is well graded.
proof fn lemma_raw_part_graded(raw: RawGtfs)
    ensures
        all_graded(raw_part(raw)),
{
    let files = texts(raw.files@);
    lemma_raw_issues_graded(raw);
    lemma_references_graded(raw);
    lemma_files_graded(files);
    let a = raw_gtfs::raw_issues(raw);
    let b = invalid_reference::reference_issues(known_of(raw), raw);
    let c = file_presence::file_issues(files);
    let d = sub_folder::sub_folder_issues(files);
    lemma_graded_add(a, b);
    lemma_graded_add(a + b, c);
    lemma_graded_add(a + b + c, d);
}

proof fn lemma_unused_graded(gtfs: Gtfs)
    ensures
        all_graded(unused_stop::unused_stop_issues(gtfs)),
{
    lemma_gather_graded(places(gtfs.stops@.len()), unused_stop::unused_of(gtfs));
}

proof fn lemma_speed_graded(gtfs: Gtfs, rules: CustomRules)
    ensures
        all_graded(speed_issues(gtfs, rules)),
{
    lemma_findings_calm(gtfs, rules, gtfs.trips@.len());
    lemma_merged_graded(findings_upto(gtfs, rules, gtfs.trips@.len()));
}

proof fn lemma_names_graded(gtfs: Gtfs)
    ensures
        all_graded(check_name::name_issues(gtfs)),
{
    lemma_gather_graded(gtfs.routes@, check_name::unnamed_route_of());
    lemma_gather_graded(gtfs.stops@, check_name::unnamed_stop_of());
    lemma_gather_graded(gtfs.agencies@, check_name::unnamed_agency_of());
    lemma_gather_graded(gtfs.feed_info@, check_name::unnamed_feed_info_of());
}

proof fn lemma_ids_graded(gtfs: Gtfs)
    ensures
        all_graded(check_id::id_issues(gtfs)),
{
    lemma_gather_graded(gtfs.agencies@, check_id::agency_id_of());
    lemma_gather_graded(gtfs.routes@, check_id::route_id_of());
    lemma_gather_graded(gtfs.trips@, check_id::trip_id_of());
    lemma_gather_graded(gtfs.calendar@, check_id::calendar_id_of());
    lemma_gather_graded(gtfs.stops@, check_id::stop_id_of());
    lemma_gather_graded(gtfs.shapes@, check_id::shape_id_of());
}

proof fn lemma_stops_graded(stops: Seq<Stop>)
    ensures
        all_graded(crate::validators::stops::coord_issues(stops) + crate::validators::stops::parent_issues(stops)),
{
    lemma_gather_graded(stops, crate::validators::stops::missing_coord_of());
    lemma_gather_graded(stops, crate::validators::stops::invalid_coord_of());
    lemma_gather_graded(stops, crate::validators::stops::invalid_parent_of(stops));
}

proof fn lemma_routes_graded(gtfs: Gtfs)
    ensures
        all_graded(routes::route_issues(gtfs)),
{
    lemma_gather_graded(gtfs.routes@, routes::invalid_route_type_of());
    lemma_gather_graded(gtfs.routes@, routes::missing_agency_id_of());
}

proof fn lemma_shapes_graded(gtfs: Gtfs)
    ensures
        all_graded(shapes::shape_issues(gtfs)),
{
    lemma_gather_graded(gtfs.shapes@, shapes::missing_coord_of());
    lemma_gather_graded(gtfs.shapes@, shapes::invalid_coord_of());
    lemma_gather_graded(gtfs.trips@, shapes::invalid_shape_id_of(gtfs.shapes@));
    lemma_gather_graded(gtfs.shapes@, shapes::unused_shape_of(gtfs.trips@));
    lemma_gather_graded(gtfs.trips@, shapes::no_shape_of());
}

proof fn lemma_agencies_graded(gtfs: Gtfs)
    ensures
        all_graded(agency::agency_issues(gtfs)),
        all_graded(calendar::calendar_issues(gtfs)),
{
    lemma_gather_graded(gtfs.agencies@, agency::missing_url_of());
    lemma_gather_graded(gtfs.agencies@, agency::invalid_url_of());
    lemma_gather_graded(gtfs.agencies@, agency::invalid_timezone_of());
}

proof fn lemma_fares_graded(gtfs: Gtfs)
    ensures
        all_graded(fare_attributes::fare_issues(gtfs)),
{
    lemma_gather_graded(gtfs.fare_attributes@, fare_attributes::missing_price_of());
    lemma_gather_graded(gtfs.fare_attributes@, fare_attributes::invalid_currency_of());
    lemma_gather_graded(gtfs.fare_attributes@, fare_attributes::invalid_transfers_of());
    lemma_gather_graded(gtfs.fare_attributes@, fare_attributes::invalid_duration_of());
}

proof fn lemma_feed_infos_graded(gtfs: Gtfs)
    ensures
        all_graded(feed_info::feed_info_issues(gtfs)),
{
    lemma_gather_graded(gtfs.feed_info@, feed_info::missing_url_of());
    lemma_gather_graded(gtfs.feed_info@, feed_info::invalid_url_of());
    lemma_gather_graded(gtfs.feed_info@, feed_info::missing_lang_of());
    lemma_gather_graded(gtfs.feed_info@, feed_info::invalid_lang_of());
}

proof fn lemma_stop_times_graded(gtfs: Gtfs)
    ensures
        all_graded(stop_times::stop_time_issues(gtfs)),
{
    lemma_noted_graded(stop_times::visits_upto(gtfs, gtfs.trips@.len()));
    lemma_gather_graded(gtfs.trips@, stop_times::duplicate_sequence_of(gtfs.stops@));
    assert forall|t: Trip| all_graded(#[trigger] stop_times::trip_dwell_of()(t)) by {
        lemma_gather_graded(t.stop_times@, stop_times::negative_dwell_of(t));
    }
    lemma_gather_graded(gtfs.trips@, stop_times::trip_dwell_of());
}

proof fn lemma_trips_graded(linked: Linked)
    ensures
        all_graded(gather(linked.close_pairs@, duplicate_stops::duplicate_of(linked.gtfs.stops@))),
        all_graded(gather(linked.gtfs.trips@, interpolated_stoptimes::not_interpolable_of())),
        all_graded(gather(linked.gtfs.trips@, unusable_trip::unusable_of(linked.gtfs.stops@))),
{
    lemma_gather_graded(linked.close_pairs@, duplicate_stops::duplicate_of(linked.gtfs.stops@));
    lemma_gather_graded(linked.gtfs.trips@, interpolated_stoptimes::not_interpolable_of());
    lemma_gather_graded(linked.gtfs.trips@, unusable_trip::unusable_of(linked.gtfs.stops@));
}

/// Every issue that the rules on the linked model find is well graded.
proof fn lemma_linked_part_graded(linked: Linked, rules: CustomRules)
    ensures
        all_graded(linked_part(linked, rules)),
{
    let gtfs = linked.gtfs;
    lemma_unused_graded(gtfs);
    lemma_speed_graded(gtfs, rules);
    lemma_names_graded(gtfs);
    lemma_ids_graded(gtfs);
    lemma_stops_graded(gtfs.stops@);
    lemma_routes_graded(gtfs);
    lemma_shapes_graded(gtfs);
    lemma_agencies_graded(gtfs);
    lemma_fares_graded(gtfs);
    lemma_feed_infos_graded(gtfs);
    lemma_stop_times_graded(gtfs);
    lemma_trips_graded(linked);
    let part1 = unused_stop::unused_stop_issues(gtfs);
    let part2 = part1 + speed_issues(gtfs, rules);
    let part3 = part2 + check_name::name_issues(gtfs);
    let part4 = part3 + check_id::id_issues(gtfs);
    let part5 = part4 + (crate::validators::stops::coord_issues(gtfs.stops@) + crate::validators::stops::parent_issues(gtfs.stops@));
    let part6 = part5 + routes::route_issues(gtfs);
    let part7 = part6 + shapes::shape_issues(gtfs);
    let part8 = part7 + agency::agency_issues(gtfs);
    let part9 = part8 + calendar::calendar_issues(gtfs);
    let part10 = part9 + gather(linked.close_pairs@, duplicate_stops::duplicate_of(gtfs.stops@));
    let part11 = part10 + fare_attributes::fare_issues(gtfs);
    let part12 = part11 + feed_info::feed_info_issues(gtfs);
    let part13 = part12 + stop_times::stop_time_issues(gtfs);
    let part14 = part13 + gather(gtfs.trips@, interpolated_stoptimes::not_interpolable_of());
    lemma_graded_add(part1, speed_issues(gtfs, rules));
    lemma_graded_add(part2, check_name::name_issues(gtfs));
    lemma_graded_add(part3, check_id::id_issues(gtfs));
    lemma_graded_add(part4, crate::validators::stops::coord_issues(gtfs.stops@) + crate::validators::stops::parent_issues(gtfs.stops@));
    lemma_graded_add(part5, routes::route_issues(gtfs));
    lemma_graded_add(part6, shapes::shape_issues(gtfs));
    lemma_graded_add(part7, agency::agency_issues(gtfs));
    lemma_graded_add(part8, calendar::calendar_issues(gtfs));
    lemma_graded_add(part9, gather(linked.close_pairs@, duplicate_stops::duplicate_of(gtfs.stops@)));
    lemma_graded_add(part10, fare_attributes::fare_issues(gtfs));
    lemma_graded_add(part11, feed_info::feed_info_issues(gtfs));
    lemma_graded_add(part12, stop_times::stop_time_issues(gtfs));
    lemma_graded_add(part13, gather(gtfs.trips@, interpolated_stoptimes::not_interpolable_of()));
    lemma_graded_add(part14, gather(gtfs.trips@, unusable_trip::unusable_of(gtfs.stops@)));
}

/// Every issue of a feed is fatal only where its category may be.
pub proof fn lemma_fatal_issues_are_of_few_categories(raw: RawGtfs, linked: Result<Linked, LoadError>, rules: CustomRules)
    ensures
        all_graded(all_issues(raw, linked, rules)),
{
    lemma_raw_part_graded(raw);
    match linked {
        Ok(l) => {
            lemma_linked_part_graded(l, rules);
            assert(all_graded(raw_part(raw) + linked_part(l, rules)));
        },
        Err(e) => {},
    }
}

/// Every issue of a list sorted by category and cut is one of the list.
proof fn lemma_of_type_members(all: Seq<IssueView>, t: IssueType, j: int) -> (k: int)
    requires
        0 <= j < of_type(all, t).len(),
    ensures
        0 <= k < all.len(),
        all[k] == of_type(all, t)[j],
    decreases all.len(),
{
    if all.last().issue_type == t && j == of_type(all.drop_last(), t).len() {
        all.len() - 1
    } else {
        lemma_of_type_members(all.drop_last(), t, j)
    }
}

/// Every issue in a report, of a feed that was read or of an archive
/// that was not, is fatal only where its category may be.
pub proof fn lemma_reports_are_well_graded(raw: RawGtfs, linked: Result<Linked, LoadError>, max_issues: usize, rules: CustomRules, failure: LoadError)
    requires
        all_issues(raw, linked, rules).len() <= usize::MAX,
    ensures
        forall|k: int, j: int|
            0 <= k < report(raw, linked, max_issues, rules).validations.len() && 0 <= j < report(raw, linked, max_issues, rules).validations[k].1.len()
                ==> well_graded(#[trigger] report(raw, linked, max_issues, rules).validations[k].1[j]),
        forall|k: int, j: int|
            0 <= k < archive_report(failure).validations.len() && 0 <= j < archive_report(failure).validations[k].1.len()
                ==> well_graded(#[trigger] archive_report(failure).validations[k].1[j]),
{
    let all = all_issues(raw, linked, rules);
    lemma_fatal_issues_are_of_few_categories(raw, linked, rules);
    lemma_counts_upto(all, max_issues, ISSUE_TYPE_COUNT as int);
    assert(places(ISSUE_TYPE_COUNT as nat).take(ISSUE_TYPE_COUNT as int) =~= places(ISSUE_TYPE_COUNT as nat));
    assert forall|k: int, j: int|
        0 <= k < buckets(all, max_issues).len() && 0 <= j < buckets(all, max_issues)[k].1.len() implies well_graded(
        #[trigger] buckets(all, max_issues)[k].1[j],
    ) by {
        let b = buckets(all, max_issues)[k];
        assert(b.1 == capped(of_type(all, b.0), max_issues));
        let w = lemma_of_type_members(all, b.0, j);
        assert(well_graded(all[w]));
    }
}

/// The finding that opened a merged issue: the issue has its category,
/// its severity and its explanation, and is about its departure stop.
proof fn lemma_merged_origin(fs: Seq<Finding>, k: int) -> (j: int)
    requires
        0 <= k < merged(fs).len(),
    ensures
        0 <= j < fs.len(),
        merged(fs)[k].issue_type == fs[j].issue_type,
        merged(fs)[k].severity == fs[j].severity,
        merged(fs)[k].object_id == fs[j].departure.id,
        merged(fs)[k].details == Some(fs[j].details),
    decreases fs.len(),
{
    let before = merged(fs.drop_last());
    let f = fs.last();
    let place = crate::collect::first_where(before, on_segment(f.severity, f.issue_type, f.departure.id, f.arrival.id));
    match place {
        Some(p) => {
            if exists|i: int| crate::collect::is_first_where(before, on_segment(f.severity, f.issue_type, f.departure.id, f.arrival.id), i) {
            }
            assert(0 <= p < before.len());
            let j = lemma_merged_origin(fs.drop_last(), k);
            assert(fs.drop_last()[j] == fs[j]);
            j
        },
        None => {
            if k < before.len() {
                let j = lemma_merged_origin(fs.drop_last(), k);
                assert(fs.drop_last()[j] == fs[j]);
                j
            } else {
                fs.len() - 1
            }
        },
    }
}

/// The leg that a finding of a trip comes from.
proof fn lemma_trip_finding_origin(stops: Seq<Stop>, route: Route, rules: CustomRules, trip: Trip, legs: nat, j: int) -> (leg: int)
    requires
        0 <= j < trip_findings(stops, route, rules, trip, legs).len(),
    ensures
        0 <= leg < legs,
        leg_findings(stops, route, rules, trip.stop_times@[leg], trip.stop_times@[leg + 1]) == seq![
            trip_findings(stops, route, rules, trip, legs)[j],
        ],
    decreases legs,
{
    let front = trip_findings(stops, route, rules, trip, (legs - 1) as nat);
    if j < front.len() {
        lemma_trip_finding_origin(stops, route, rules, trip, (legs - 1) as nat, j)
    } else {
        let here = leg_findings(stops, route, rules, trip.stop_times@[legs - 1], trip.stop_times@[legs as int]);
        assert(here.len() == 1);
        assert(here =~= seq![trip_findings(stops, route, rules, trip, legs)[j]]);
        legs - 1
    }
}

/// The trip and the leg that a finding comes from.
proof fn lemma_finding_origin(gtfs: Gtfs, rules: CustomRules, n: nat, j: int) -> (w: (int, int))
    requires
        0 <= j < findings_upto(gtfs, rules, n).len(),
    ensures
        0 <= w.0 < n,
        route_of(gtfs.routes@, gtfs.trips@[w.0].route_id@) is Some,
        0 <= w.1 < legs_of(gtfs.trips@[w.0]),
        leg_findings(
            gtfs.stops@,
            route_of(gtfs.routes@, gtfs.trips@[w.0].route_id@).unwrap(),
            rules,
            gtfs.trips@[w.0].stop_times@[w.1],
            gtfs.trips@[w.0].stop_times@[w.1 + 1],
        ) == seq![findings_upto(gtfs, rules, n)[j]],
    decreases n,
{
    let front = findings_upto(gtfs, rules, (n - 1) as nat);
    if j < front.len() {
        lemma_finding_origin(gtfs, rules, (n - 1) as nat, j)
    } else {
        let trip = gtfs.trips@[n - 1];
        let route = route_of(gtfs.routes@, trip.route_id@).unwrap();
        let leg = lemma_trip_finding_origin(gtfs.stops@, route, rules, trip, legs_of(trip), j - front.len());
        (n - 1, leg)
    }
}

/// Every issue on an excessive speed comes from a leg of a trip whose
/// speed is above the maximum of the mode of the trip's route under the
/// rules in force: with `d` its distance in millimetres, `t > 0` its
/// duration in seconds and `v` the maximum in metres per hour,
/// `18 d > 5 v t`. The issue is about the departure stop of that leg.
pub proof fn lemma_excessive_speed_is_above_the_maximum(gtfs: Gtfs, rules: CustomRules, k: int) -> (w: (int, int))
    requires
        0 <= k < speed_issues(gtfs, rules).len(),
        speed_issues(gtfs, rules)[k].issue_type == IssueType::ExcessiveSpeed,
    ensures
        0 <= w.0 < gtfs.trips@.len(),
        0 <= w.1 < legs_of(gtfs.trips@[w.0]),
        route_of(gtfs.routes@, gtfs.trips@[w.0].route_id@) is Some,
        distance_and_duration_of(gtfs.stops@, gtfs.trips@[w.0].stop_times@[w.1], gtfs.trips@[w.0].stop_times@[w.1 + 1]) is Some,
        ({
            let trip = gtfs.trips@[w.0];
            let route = route_of(gtfs.routes@, trip.route_id@).unwrap();
            let (d, t) = distance_and_duration_of(gtfs.stops@, trip.stop_times@[w.1], trip.stop_times@[w.1 + 1]).unwrap();
            &&& t > 0
            &&& 18 * d > 5 * max_speed_of(route.route_type, rules) * t
            &&& speed_issues(gtfs, rules)[k].object_id == gtfs.stops@[trip.stop_times@[w.1].stop as int].id@
        }),
{
    let fs = findings_upto(gtfs, rules, gtfs.trips@.len());
    let j = lemma_merged_origin(fs, k);
    let w = lemma_finding_origin(gtfs, rules, gtfs.trips@.len(), j);
    let trip = gtfs.trips@[w.0];
    let route = route_of(gtfs.routes@, trip.route_id@).unwrap();
    let found = leg_findings(gtfs.stops@, route, rules, trip.stop_times@[w.1], trip.stop_times@[w.1 + 1]);
    assert(found[0] == fs[j]);
    w
}

} // verus!
