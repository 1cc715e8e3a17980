//! The whole validation: the rules on the rows, the rules on the linked
//! model where it could be built, what is drawn for each issue, and the
//! issues sorted by category, each category cut to a maximum.
use vstd::prelude::*;
use vstd::string::StringExecFns;
use crate::collect::{extend, gather, lemma_gather_step, lemma_views_push, views};
use crate::custom_rules::CustomRules;
use crate::issues::{Issue, IssueType, IssueView, RelatedFile, RelatedFileView, RelatedLine, Severity, texts, ISSUE_TYPE_COUNT};
use crate::metadatas::{enriched, extract_metadata, extracted, Metadata, MetadataView};
use crate::model::{Gtfs, LoadError, RawGtfs};
use crate::validators;
use crate::validators::duplicate_stops::MeasuredPair;
use crate::collect::places;
use crate::visualization::visualization;

verus! {

/// The linked model, and the pairs of stops that may be duplicates with
/// their measured distances.
#[derive(Debug, Clone, PartialEq, Eq)]
pub struct Linked {
    pub gtfs: Gtfs,
    pub close_pairs: Vec<MeasuredPair>,
}

/// The report: the summary of the feed, and the issues of each category
/// that has any, in the order of the categories.
#[derive(Debug, Clone, PartialEq, Eq)]
pub struct Response {
    pub metadata: Option<Metadata>,
    pub validations: Vec<(IssueType, Vec<Issue>)>,
}

/// Views of the issues of each category.
pub open spec fn bucket_views(v: Seq<(IssueType, Vec<Issue>)>) -> Seq<(IssueType, Seq<IssueView>)> {
    v.map_values(|b: (IssueType, Vec<Issue>)| (b.0, views(b.1@)))
}

/// What a [`Response`] holds.
pub ghost struct ResponseView {
    pub metadata: Option<MetadataView>,
    pub validations: Seq<(IssueType, Seq<IssueView>)>,
}

impl View for Response {
    type V = ResponseView;

    open spec fn view(&self) -> ResponseView {
        ResponseView {
            metadata: match self.metadata {
                Some(m) => Some(m@),
                None => None,
            },
            validations: bucket_views(self.validations@),
        }
    }
}

/// The issues of one category, in order.
pub open spec fn of_type(all: Seq<IssueView>, t: IssueType) -> Seq<IssueView>
    decreases all.len(),
{
    if all.len() == 0 {
        Seq::empty()
    } else if all.last().issue_type == t {
        of_type(all.drop_last(), t).push(all.last())
    } else {
        of_type(all.drop_last(), t)
    }
}

/// The first `max` issues of a list, or all where there are no more.
pub open spec fn capped(s: Seq<IssueView>, max: usize) -> Seq<IssueView> {
    if s.len() > max {
        s.take(max as int)
    } else {
        s
    }
}

/// The issues of the category of this rank, cut to `max`, where there are any.
pub open spec fn bucket_of(all: Seq<IssueView>, max: usize) -> spec_fn(int) -> Seq<(IssueType, Seq<IssueView>)> {
    |rank: int|
        {
            let t = IssueType::at(rank as nat);
            if of_type(all, t).len() > 0 {
                seq![(t, capped(of_type(all, t), max))]
            } else {
                Seq::empty()
            }
        }
}

/// The number of issues of the category of this rank, where there are any.
pub open spec fn count_of(all: Seq<IssueView>) -> spec_fn(int) -> Seq<(IssueType, usize)> {
    |rank: int|
        {
            let t = IssueType::at(rank as nat);
            if of_type(all, t).len() > 0 {
                seq![(t, of_type(all, t).len() as usize)]
            } else {
                Seq::empty()
            }
        }
}

/// The issues by category, in the order of the categories, each category
/// cut to `max`; a category without issues is left out.
pub open spec fn buckets(all: Seq<IssueView>, max: usize) -> Seq<(IssueType, Seq<IssueView>)> {
    gather(places(ISSUE_TYPE_COUNT as nat), bucket_of(all, max))
}

/// The number of issues of each category that has any, before any cut.
pub open spec fn counts(all: Seq<IssueView>) -> Seq<(IssueType, usize)> {
    gather(places(ISSUE_TYPE_COUNT as nat), count_of(all))
}

/// The issues that the rules on the rows find: repeated ids, references,
/// files, and a folder around the feed.
pub open spec fn raw_part(raw: RawGtfs) -> Seq<IssueView> {
    validators::raw_gtfs::raw_issues(raw) + validators::invalid_reference::reference_issues(
        validators::invalid_reference::known_of(raw),
        raw,
    ) + validators::file_presence::file_issues(texts(raw.files@)) + validators::sub_folder::sub_folder_issues(
        texts(raw.files@),
    )
}

/// The issues that the rules on the linked model find, rule by rule.
pub open spec fn linked_part(linked: Linked, rules: CustomRules) -> Seq<IssueView> {
    let gtfs = linked.gtfs;
    validators::unused_stop::unused_stop_issues(gtfs) + validators::duration_distance::speed_issues(gtfs, rules)
        + validators::check_name::name_issues(gtfs) + validators::check_id::id_issues(gtfs) + (
    validators::stops::coord_issues(gtfs.stops@) + validators::stops::parent_issues(gtfs.stops@))
        + validators::routes::route_issues(gtfs) + validators::shapes::shape_issues(gtfs)
        + validators::agency::agency_issues(gtfs) + validators::calendar::calendar_issues(gtfs) + gather(
        linked.close_pairs@,
        validators::duplicate_stops::duplicate_of(gtfs.stops@),
    ) + validators::fare_attributes::fare_issues(gtfs) + validators::feed_info::feed_info_issues(gtfs)
        + validators::stop_times::stop_time_issues(gtfs) + gather(
        gtfs.trips@,
        validators::interpolated_stoptimes::not_interpolable_of(),
    ) + gather(gtfs.trips@, validators::unusable_trip::unusable_of(gtfs.stops@))
}

/// An issue with what is drawn for it.
pub open spec fn drawn(i: IssueView, gtfs: Gtfs) -> IssueView {
    IssueView { geojson: visualization(i, gtfs.stops@), ..i }
}

/// The issues, each with what is drawn for it.
pub open spec fn all_drawn(all: Seq<IssueView>, gtfs: Gtfs) -> Seq<IssueView> {
    all.map_values(|i: IssueView| drawn(i, gtfs))
}

/// What a failure says: its message, and that of the underlying failure
/// where there is one.
pub open spec fn failure_text(e: LoadError) -> Seq<char> {
    match e.source {
        Some(inner) => e.message@ + ": "@ + inner@,
        None => e.message@,
    }
}

/// The fatal issue for a model that could not be built: it says why, and
/// names the file and the line where the failure is that of decoding a row.
pub open spec fn unloadable(e: LoadError) -> IssueView {
    IssueView {
        related_file: match e.csv {
            Some(c) => Some(RelatedFileView { file_name: c.file_name@, line: c.line() }),
            None => None,
        },
        ..IssueView::bare(
            Severity::Fatal,
            IssueType::UnloadableModel,
            "A fatal error has occured while loading the model, many rules have not been checked"@,
        ).with_details(failure_text(e))
    }
}

/// All the issues of a feed, before they are sorted by category. With a
/// linked model: those of the rows, then those of the model, each with
/// what is drawn for it. Without: those of the rows, then the fatal issue
/// that says why there is no model.
pub open spec fn all_issues(raw: RawGtfs, linked: Result<Linked, LoadError>, rules: CustomRules) -> Seq<IssueView> {
    match linked {
        Ok(l) => all_drawn(raw_part(raw) + linked_part(l, rules), l.gtfs),
        Err(e) => raw_part(raw).push(unloadable(e)),
    }
}

/// The summary of a feed in its report: that of the rows, with what the
/// linked model adds where there is one, and the number of issues of each
/// category.
pub open spec fn summary(raw: RawGtfs, linked: Result<Linked, LoadError>, rules: CustomRules) -> MetadataView {
    let base = match linked {
        Ok(l) => enriched(extracted(raw), l.gtfs),
        Err(_) => extracted(raw),
    };
    MetadataView { issues_count: counts(all_issues(raw, linked, rules)), ..base }
}

/// The report on a feed that could be read.
pub open spec fn report(raw: RawGtfs, linked: Result<Linked, LoadError>, max_issues: usize, rules: CustomRules) -> ResponseView {
    ResponseView {
        metadata: Some(summary(raw, linked, rules)),
        validations: buckets(all_issues(raw, linked, rules), max_issues),
    }
}

/// The report on an archive that could not be read at all: no summary,
/// and one fatal issue that says why.
pub open spec fn archive_report(e: LoadError) -> ResponseView {
    ResponseView {
        metadata: None,
        validations: seq![
            (
                IssueType::InvalidArchive,
                seq![
                    IssueView::bare(Severity::Fatal, IssueType::InvalidArchive, Seq::empty()).with_details(e.message@),
                ],
            ),
        ],
    }
}

/// The fatal issue for a model that could not be built.
pub fn create_unloadable_model_error(error: LoadError) -> (r: Issue)
    ensures
        r@ == unloadable(error),
{
    let msg = match &error.source {
        Some(inner) => {
            let mut m = error.message.clone();
            m.append(": ");
            m.append(inner.as_str());
            m
        },
        None => error.message.clone(),
    };
    let mut issue = Issue::new(
        Severity::Fatal,
        IssueType::UnloadableModel,
        "A fatal error has occured while loading the model, many rules have not been checked",
    ).details(msg.as_str());
    match error.csv {
        Some(c) => {
            let line = match (c.line_number, c.line_in_error) {
                (Some(line_number), Some(l)) => Some(RelatedLine { line_number, headers: l.headers, values: l.values }),
                _ => None,
            };
            issue.related_file = Some(RelatedFile { file_name: c.file_name, line });
        },
        None => {},
    }
    issue
}

pub proof fn lemma_of_type_push(all: Seq<IssueView>, x: IssueView, t: IssueType)
    ensures
        of_type(all.push(x), t) == if x.issue_type == t {
            of_type(all, t).push(x)
        } else {
            of_type(all, t)
        },
{
    assert(all.push(x).drop_last() =~= all);
}

pub proof fn lemma_of_type_len(all: Seq<IssueView>, t: IssueType)
    ensures
        of_type(all, t).len() <= all.len(),
    decreases all.len(),
{
    if all.len() > 0 {
        lemma_of_type_len(all.drop_last(), t);
    }
}

/// The issues sorted by category, in the order in which they came.
fn sort_by_type(issues: Vec<Issue>) -> (r: Vec<Vec<Issue>>)
    ensures
        r@.len() == ISSUE_TYPE_COUNT,
        forall|rank: int| 0 <= rank < ISSUE_TYPE_COUNT ==> views(#[trigger] r@[rank]@) == of_type(views(issues@), IssueType::at(rank as nat)),
{
    let ghost all = views(issues@);
    let n = issues.len();
    // the issues are taken from the end, so turn them round first
    let mut issues = issues;
    let mut rev: Vec<Issue> = Vec::new();
    while issues.len() > 0
        invariant
            issues@.len() + rev@.len() == n,
            n == all.len(),
            forall|k: int| 0 <= k < issues@.len() ==> (#[trigger] issues@[k])@ == all[k],
            forall|k: int| 0 <= k < rev@.len() ==> (#[trigger] rev@[k])@ == all[n - 1 - k],
        decreases issues@.len(),
    {
        let x = issues.pop().unwrap();
        rev.push(x);
    }
    let mut sorted: Vec<Vec<Issue>> = Vec::new();
    let mut rank: usize = 0;
    while rank < ISSUE_TYPE_COUNT
        invariant
            rank <= ISSUE_TYPE_COUNT,
            sorted@.len() == rank,
            forall|k: int| 0 <= k < rank ==> (#[trigger] sorted@[k])@.len() == 0,
        decreases ISSUE_TYPE_COUNT - rank,
    {
        sorted.push(Vec::new());
        rank += 1;
    }
    let mut i: usize = 0;
    proof {
        assert(all.take(0) =~= Seq::empty());
        assert forall|rank: int| 0 <= rank < ISSUE_TYPE_COUNT implies views(#[trigger] sorted@[rank]@) == of_type(
            all.take(0),
            IssueType::at(rank as nat),
        ) by {
            assert(views(sorted@[rank]@) =~= Seq::empty());
        }
    }
    while i < n
        invariant
            n == all.len(),
            i <= n,
            rev@.len() == n - i,
            forall|k: int| 0 <= k < rev@.len() ==> (#[trigger] rev@[k])@ == all[n - 1 - k],
            sorted@.len() == ISSUE_TYPE_COUNT,
            forall|rank: int| 0 <= rank < ISSUE_TYPE_COUNT ==> views(#[trigger] sorted@[rank]@) == of_type(
                all.take(i as int),
                IssueType::at(rank as nat),
            ),
        decreases n - i,
    {
        let x = rev.pop().unwrap();
        assert(x@ == all[i as int]);
        let place = x.issue_type.index();
        let ghost before = sorted@;
        let mut b = sorted.remove(place);
        b.push(x);
        sorted.insert(place, b);
        proof {
            assert(all.take(i + 1) =~= all.take(i as int).push(all[i as int]));
            assert forall|rank: int| 0 <= rank < ISSUE_TYPE_COUNT implies views(#[trigger] sorted@[rank]@) == of_type(
                all.take(i + 1),
                IssueType::at(rank as nat),
            ) by {
                lemma_of_type_push(all.take(i as int), all[i as int], IssueType::at(rank as nat));
                if rank == place {
                    assert(sorted@[rank]@ =~= before[rank]@.push(x));
                    lemma_views_push(before[rank]@, x);
                } else {
                    assert(sorted@[rank] == before[rank]);
                    assert(IssueType::at(rank as nat).rank() == rank);
                }
            }
        }
        i += 1;
    }
    assert(all.take(n as int) =~= all);
    sorted
}

/// The report from all the issues of a feed and its summary: the issues
/// sorted by category and cut, and their numbers put into the summary.
fn fold_issues(issues: Vec<Issue>, metadata: Metadata, max_issues: usize) -> (r: Response)
    ensures
        r@ == (ResponseView {
            metadata: Some(MetadataView { issues_count: counts(views(issues@)), ..metadata@ }),
            validations: buckets(views(issues@), max_issues),
        }),
{
    let ghost all = views(issues@);
    let mut metadata = metadata;
    let mut sorted = sort_by_type(issues);
    let ghost whole = sorted@;
    let mut validations: Vec<(IssueType, Vec<Issue>)> = Vec::new();
    let mut issues_count: Vec<(IssueType, usize)> = Vec::new();
    let ghost ranks = places(ISSUE_TYPE_COUNT as nat);
    proof {
        assert(ranks.take(0) =~= Seq::empty());
        assert(bucket_views(validations@) =~= Seq::empty());
    }
    let mut rank: usize = 0;
    while rank < ISSUE_TYPE_COUNT
        invariant
            ranks == places(ISSUE_TYPE_COUNT as nat),
            rank <= ISSUE_TYPE_COUNT,
            whole.len() == ISSUE_TYPE_COUNT,
            sorted@.len() == ISSUE_TYPE_COUNT - rank,
            forall|k: int| 0 <= k < sorted@.len() ==> #[trigger] sorted@[k] == whole[rank + k],
            forall|k: int| 0 <= k < ISSUE_TYPE_COUNT ==> views(#[trigger] whole[k]@) == of_type(all, IssueType::at(k as nat)),
            bucket_views(validations@) == gather(ranks.take(rank as int), bucket_of(all, max_issues)),
            issues_count@ == gather(ranks.take(rank as int), count_of(all)),
        decreases ISSUE_TYPE_COUNT - rank,
    {
        proof {
            lemma_gather_step(ranks, rank as int, bucket_of(all, max_issues));
            lemma_gather_step(ranks, rank as int, count_of(all));
        }
        let mut bucket = sorted.remove(0);
        assert(bucket == whole[rank as int]);
        assert(views(bucket@) == of_type(all, IssueType::at(rank as nat)));
        let ghost found = views(bucket@);
        let ghost before = bucket_views(validations@);
        if bucket.len() > 0 {
            let t = IssueType::from_index(rank).unwrap();
            issues_count.push((t, bucket.len()));
            bucket.truncate(max_issues);
            proof {
                if found.len() > max_issues {
                    assert(views(bucket@) =~= found.take(max_issues as int));
                } else {
                    assert(views(bucket@) =~= found);
                }
            }
            validations.push((t, bucket));
            assert(bucket_views(validations@) =~= before + bucket_of(all, max_issues)(rank as int));
        } else {
            assert(found.len() == 0);
            assert(bucket_views(validations@) =~= before + bucket_of(all, max_issues)(rank as int));
        }
        rank += 1;
    }
    assert(ranks.take(rank as int) =~= ranks);
    metadata.issues_count = issues_count;
    Response { metadata: Some(metadata), validations }
}

/// Sets what is drawn for each issue.
fn draw_all(issues: &mut Vec<Issue>, gtfs: &Gtfs)
    ensures
        views(final(issues)@) == all_drawn(views(old(issues)@), *gtfs),
{
    let n = issues.len();
    let mut i: usize = 0;
    while i < n
        invariant
            n == old(issues)@.len(),
            issues@.len() == n,
            i <= n,
            forall|k: int| 0 <= k < i ==> (#[trigger] issues@[k])@ == drawn(old(issues)@[k]@, *gtfs),
            forall|k: int| i <= k < n ==> #[trigger] issues@[k] == old(issues)@[k],
        decreases n - i,
    {
        let mut issue = issues.remove(i);
        issue.push_related_geojson(gtfs);
        issues.insert(i, issue);
        i += 1;
    }
    assert(views(issues@) =~= all_drawn(views(old(issues)@), *gtfs));
}

/// The issues that the rules on the rows find.
fn raw_rules(raw: &RawGtfs) -> (r: Vec<Issue>)
    ensures
        views(r@) == raw_part(*raw),
{
    let mut issues = validators::raw_gtfs::validate(raw);
    extend(&mut issues, validators::invalid_reference::validate(raw));
    extend(&mut issues, validators::file_presence::validate(raw));
    extend(&mut issues, validators::sub_folder::validate(raw));
    issues
}

/// The issues that the rules on the linked model find.
fn linked_rules(linked: &Linked, custom_rules: &CustomRules) -> (r: Vec<Issue>)
    requires
        linked.gtfs.wf(),
    ensures
        views(r@) == linked_part(*linked, *custom_rules),
{
    let gtfs = &linked.gtfs;
    let mut issues = validators::unused_stop::validate(gtfs);
    extend(&mut issues, validators::duration_distance::validate(gtfs, custom_rules));
    extend(&mut issues, validators::check_name::validate(gtfs));
    extend(&mut issues, validators::check_id::validate(gtfs));
    extend(&mut issues, validators::stops::validate(gtfs));
    extend(&mut issues, validators::routes::validate(gtfs));
    extend(&mut issues, validators::shapes::validate(gtfs));
    extend(&mut issues, validators::agency::validate(gtfs));
    extend(&mut issues, validators::calendar::validate(gtfs));
    extend(&mut issues, validators::duplicate_stops::validate(gtfs, &linked.close_pairs));
    extend(&mut issues, validators::fare_attributes::validate(gtfs));
    extend(&mut issues, validators::feed_info::validate(gtfs));
    extend(&mut issues, validators::stop_times::validate(gtfs));
    extend(&mut issues, validators::interpolated_stoptimes::validate(gtfs));
    extend(&mut issues, validators::unusable_trip::validate(gtfs));
    issues
}

/// Validates a feed whose files were read: runs the rules on the rows
/// and, where the model was linked, those on the model; sorts the issues
/// by category and cuts each category to `max_issues`; counts them, before
/// the cut, into the summary.
pub fn validate_and_metadata(rgtfs: &RawGtfs, linked: Result<Linked, LoadError>, max_issues: usize, custom_rules: &CustomRules) -> (r: Response)
    requires
        linked is Ok ==> linked->Ok_0.gtfs.wf(),
    ensures
        r@ == report(*rgtfs, linked, max_issues, *custom_rules),
{
    let mut issues = raw_rules(rgtfs);
    let mut metadata = extract_metadata(rgtfs);
    match linked {
        Ok(l) => {
            extend(&mut issues, linked_rules(&l, custom_rules));
            draw_all(&mut issues, &l.gtfs);
            metadata.enrich_with_advanced_infos(&l.gtfs);
        },
        Err(e) => {
            let issue = create_unloadable_model_error(e);
            proof {
                lemma_views_push(issues@, issue);
            }
            issues.push(issue);
        },
    }
    fold_issues(issues, metadata, max_issues)
}

/// The report on a feed: that of `validate_and_metadata` where its files
/// were read; where the archive could not be read at all, a report with
/// no summary and one fatal issue.
pub fn process(raw_gtfs: Result<(RawGtfs, Result<Linked, LoadError>), LoadError>, max_issues: usize, custom_rules: &CustomRules) -> (r: Response)
    requires
        raw_gtfs is Ok && raw_gtfs->Ok_0.1 is Ok ==> raw_gtfs->Ok_0.1->Ok_0.gtfs.wf(),
    ensures
        r@ == match raw_gtfs {
            Ok(read) => report(read.0, read.1, max_issues, *custom_rules),
            Err(e) => archive_report(e),
        },
{
    match raw_gtfs {
        Ok(read) => validate_and_metadata(&read.0, read.1, max_issues, custom_rules),
        Err(e) => {
            let empty = String::new();
            let issue = Issue::new(Severity::Fatal, IssueType::InvalidArchive, empty.as_str()).details(e.message.as_str());
            let mut bucket: Vec<Issue> = Vec::new();
            bucket.push(issue);
            let mut validations: Vec<(IssueType, Vec<Issue>)> = Vec::new();
            validations.push((IssueType::InvalidArchive, bucket));
            assert(views(bucket@) =~= seq![issue@]);
            assert(bucket_views(validations@) =~= archive_report(e).validations);
            Response { metadata: None, validations }
        },
    }
}

impl Response {
    /// The issues of a category; `None` where the report has none.
    pub fn get(&self, issue_type: IssueType) -> (r: Option<&Vec<Issue>>)
        ensures
            match r {
                Some(v) => exists|k: int| 0 <= k < self.validations@.len() && (#[trigger] self.validations@[k]).0 == issue_type && self.validations@[k].1 == *v,
                None => forall|k: int| 0 <= k < self.validations@.len() ==> (#[trigger] self.validations@[k]).0 != issue_type,
            },
    {
        let mut k: usize = 0;
        while k < self.validations.len()
            invariant
                k <= self.validations@.len(),
                forall|j: int| 0 <= j < k ==> (#[trigger] self.validations@[j]).0 != issue_type,
            decreases self.validations@.len() - k,
        {
            if self.validations[k].0 == issue_type {
                return Some(&self.validations[k].1);
            }
            k += 1;
        }
        None
    }
}

} // verus!
