//! The files of the archive: mandatory ones that are missing, and files
//! that do not belong in a feed.
use vstd::prelude::*;
use crate::collect::{extend, gather, lemma_gather_step, lemma_views_empty, one, push_one, views};
use crate::issues::{Issue, IssueType, IssueView, Severity, texts};
use crate::lookup::{ends_with, is_suffix};
use crate::model::RawGtfs;

verus! {

/// Names of the files that a feed must have.
pub open spec fn mandatory_names() -> Seq<Seq<char>> {
    seq!["agency.txt"@, "routes.txt"@, "stops.txt"@, "stop_times.txt"@, "trips.txt"@]
}

/// Names of the files that a feed may have.
pub open spec fn optional_names() -> Seq<Seq<char>> {
    seq![
        "fare_attributes.txt"@,
        "calendar.txt"@,
        "calendar_dates.txt"@,
        "fare_rules.txt"@,
        "fare_media.txt"@,
        "fare_products.txt"@,
        "fare_leg_rules.txt"@,
        "fare_leg_join_rules.txt"@,
        "feed_info.txt"@,
        "frequencies.txt"@,
        "transfers.txt"@,
        "shapes.txt"@,
        "pathways.txt"@,
        "levels.txt"@,
        "translations.txt"@,
        "attributions.txt"@,
        "timeframes.txt"@,
        "areas.txt"@,
        "stop_areas.txt"@,
        "networks.txt"@,
        "route_networks.txt"@,
        "location_groups.txt"@,
        "location_group_stops.txt"@,
        "locations.geojson"@,
        "booking_rules.txt"@,
    ]
}

/// Whether the archive lists a file whose name ends in `name`: the list may
/// give the files with a directory in front.
pub open spec fn present(files: Seq<Seq<char>>, name: Seq<char>) -> bool {
    exists|k: int| 0 <= k < files.len() && is_suffix(#[trigger] files[k], name)
}

/// Whether the name of a file ends in one of these names.
pub open spec fn named_among(file: Seq<char>, names: Seq<Seq<char>>) -> bool {
    exists|k: int| 0 <= k < names.len() && is_suffix(file, #[trigger] names[k])
}

/// The issue on a mandatory file that the archive does not list.
pub open spec fn missing_file(files: Seq<Seq<char>>, name: Seq<char>) -> Option<IssueView> {
    if present(files, name) {
        None
    } else {
        Some(
            IssueView::bare(Severity::Fatal, IssueType::MissingMandatoryFile, name).with_details(
                "The mandatory file was not found"@,
            ),
        )
    }
}

/// The issue on a file that is neither mandatory nor optional.
pub open spec fn extra_file(file: Seq<char>) -> Option<IssueView> {
    if named_among(file, mandatory_names()) || named_among(file, optional_names()) {
        None
    } else {
        Some(
            IssueView::bare(Severity::Information, IssueType::ExtraFile, file).with_details(
                "This file shouldn’t be in the archive"@,
            ),
        )
    }
}

pub open spec fn missing_file_of(files: Seq<Seq<char>>) -> spec_fn(Seq<char>) -> Seq<IssueView> {
    |name: Seq<char>| one(missing_file(files, name))
}

pub open spec fn extra_file_of() -> spec_fn(Seq<char>) -> Seq<IssueView> {
    |file: Seq<char>| one(extra_file(file))
}

/// The issues on the files of the archive: the missing mandatory files in
/// the order of their list, then the extra files in the archive's order.
pub open spec fn file_issues(files: Seq<Seq<char>>) -> Seq<IssueView> {
    gather(mandatory_names(), missing_file_of(files)) + gather(files, extra_file_of())
}

/// Texts of a list of string slices.
pub open spec fn slice_texts(v: Seq<&'static str>) -> Seq<Seq<char>> {
    Seq::new(v.len(), |i: int| v[i]@)
}

fn mandatory_files() -> (r: Vec<&'static str>)
    ensures
        slice_texts(r@) == mandatory_names(),
{
    let r = vec!["agency.txt", "routes.txt", "stops.txt", "stop_times.txt", "trips.txt"];
    assert(slice_texts(r@) =~= mandatory_names());
    r
}

fn optional_files() -> (r: Vec<&'static str>)
    ensures
        slice_texts(r@) == optional_names(),
{
    let r = vec![
        "fare_attributes.txt",
        "calendar.txt",
        "calendar_dates.txt",
        "fare_rules.txt",
        "fare_media.txt",
        "fare_products.txt",
        "fare_leg_rules.txt",
        "fare_leg_join_rules.txt",
        "feed_info.txt",
        "frequencies.txt",
        "transfers.txt",
        "shapes.txt",
        "pathways.txt",
        "levels.txt",
        "translations.txt",
        "attributions.txt",
        "timeframes.txt",
        "areas.txt",
        "stop_areas.txt",
        "networks.txt",
        "route_networks.txt",
        "location_groups.txt",
        "location_group_stops.txt",
        "locations.geojson",
        "booking_rules.txt",
    ];
    assert(slice_texts(r@) =~= optional_names());
    r
}

fn is_present(files: &Vec<String>, name: &str) -> (r: bool)
    ensures
        r == present(texts(files@), name@),
{
    let mut k: usize = 0;
    while k < files.len()
        invariant
            k <= files@.len(),
            forall|j: int| 0 <= j < k ==> !is_suffix(#[trigger] texts(files@)[j], name@),
        decreases files@.len() - k,
    {
        assert(texts(files@)[k as int] == files@[k as int]@);
        if ends_with(files[k].as_str(), name) {
            return true;
        }
        k += 1;
    }
    false
}

fn is_named_among(file: &str, names: &Vec<&'static str>) -> (r: bool)
    ensures
        r == named_among(file@, slice_texts(names@)),
{
    let mut k: usize = 0;
    while k < names.len()
        invariant
            k <= names@.len(),
            forall|j: int| 0 <= j < k ==> !is_suffix(file@, #[trigger] slice_texts(names@)[j]),
        decreases names@.len() - k,
    {
        assert(slice_texts(names@)[k as int] == names@[k as int]@);
        if ends_with(file, names[k]) {
            return true;
        }
        k += 1;
    }
    false
}

/// The issues on mandatory files that the archive does not list.
pub fn missing_files(raw_gtfs: &RawGtfs) -> (r: Vec<Issue>)
    ensures
        views(r@) == gather(mandatory_names(), missing_file_of(texts(raw_gtfs.files@))),
{
    let names = mandatory_files();
    let ghost files = texts(raw_gtfs.files@);
    let mut out: Vec<Issue> = Vec::new();
    proof {
        lemma_views_empty();
        assert(mandatory_names().take(0) =~= Seq::empty());
    }
    let mut i: usize = 0;
    while i < names.len()
        invariant
            slice_texts(names@) == mandatory_names(),
            files == texts(raw_gtfs.files@),
            i <= names@.len(),
            views(out@) == gather(mandatory_names().take(i as int), missing_file_of(files)),
        decreases names@.len() - i,
    {
        proof {
            assert(slice_texts(names@).len() == names@.len());
            lemma_gather_step(mandatory_names(), i as int, missing_file_of(files));
            assert(slice_texts(names@)[i as int] == names@[i as int]@);
        }
        let found = if !is_present(&raw_gtfs.files, names[i]) {
            Some(
                Issue::new(Severity::Fatal, IssueType::MissingMandatoryFile, names[i]).details(
                    "The mandatory file was not found",
                ),
            )
        } else {
            None
        };
        push_one(&mut out, found);
        i += 1;
    }
    assert(slice_texts(names@).len() == names@.len());
    assert(mandatory_names().take(i as int) =~= mandatory_names());
    out
}

/// The issues on files that are neither mandatory nor optional.
pub fn extra_files(raw_gtfs: &RawGtfs) -> (r: Vec<Issue>)
    ensures
        views(r@) == gather(texts(raw_gtfs.files@), extra_file_of()),
{
    let mandatory = mandatory_files();
    let optional = optional_files();
    let ghost files = texts(raw_gtfs.files@);
    let mut out: Vec<Issue> = Vec::new();
    proof {
        lemma_views_empty();
        assert(files.take(0) =~= Seq::empty());
    }
    let mut i: usize = 0;
    while i < raw_gtfs.files.len()
        invariant
            slice_texts(mandatory@) == mandatory_names(),
            slice_texts(optional@) == optional_names(),
            files == texts(raw_gtfs.files@),
            i <= raw_gtfs.files@.len(),
            views(out@) == gather(files.take(i as int), extra_file_of()),
        decreases raw_gtfs.files@.len() - i,
    {
        proof {
            lemma_gather_step(files, i as int, extra_file_of());
            assert(files[i as int] == raw_gtfs.files@[i as int]@);
        }
        let f = raw_gtfs.files[i].as_str();
        let found = if !is_named_among(f, &mandatory) && !is_named_among(f, &optional) {
            Some(
                Issue::new(Severity::Information, IssueType::ExtraFile, f).details(
                    "This file shouldn’t be in the archive",
                ),
            )
        } else {
            None
        };
        push_one(&mut out, found);
        i += 1;
    }
    assert(files.take(i as int) =~= files);
    out
}

/// The issues on the files of the archive.
pub fn validate(raw_gtfs: &RawGtfs) -> (r: Vec<Issue>)
    ensures
        views(r@) == file_issues(texts(raw_gtfs.files@)),
{
    let mut out = missing_files(raw_gtfs);
    extend(&mut out, extra_files(raw_gtfs));
    out
}

} // verus!
