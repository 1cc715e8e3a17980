//! Objects that share their id with an earlier object of their file.
use vstd::prelude::*;
use vstd::string::StringExecFns;
use crate::collect::{extend, gather, lemma_gather_step, lemma_views_empty, one, push_one, views};
use crate::issues::{Described, Issue, IssueType, IssueView, ObjectType, Severity};
use crate::model::{RawGtfs, Shape, Table};
use crate::text::{decimal, str_to_string, write_decimal};
use crate::collect::places;

verus! {

/// The most sequence numbers that an issue on a shape lists.
pub const MAX_DISPLAYED_PT_SEQUENCES: usize = 10;

/// Whether the object at place `i` has the id of an earlier one.
pub open spec fn repeats<T: Described>(rows: Seq<T>, i: int) -> bool {
    exists|j: int| 0 <= j < i && (#[trigger] rows[j]).described().id == rows[i].described().id
}

/// The issue on the object at place `i` where it repeats an id.
pub open spec fn repeated<T: Described>(rows: Seq<T>, i: int) -> Option<IssueView> {
    if repeats(rows, i) {
        Some(
            IssueView {
                object_type: rows[i].described().object_type,
                ..IssueView::bare(Severity::Error, IssueType::DuplicateObjectId, rows[i].described().id)
            },
        )
    } else {
        None
    }
}

pub open spec fn repeated_of<T: Described>(rows: Seq<T>) -> spec_fn(int) -> Seq<IssueView> {
    |i: int| one(repeated(rows, i))
}

/// The issues on repeated ids among the rows, one for each repeat.
pub open spec fn duplicate_issues<T: Described>(rows: Seq<T>) -> Seq<IssueView> {
    gather(places(rows.len()), repeated_of(rows))
}

/// The issues on repeated ids among the rows of a file; none where the
/// file is absent or unreadable.
pub fn check_duplicates<T: Described>(objects: &Table<T>) -> (r: Vec<Issue>)
    ensures
        views(r@) == duplicate_issues(objects.rows()),
{
    let mut out: Vec<Issue> = Vec::new();
    proof {
        lemma_views_empty();
        assert(places(objects.rows().len()).take(0) =~= Seq::empty());
    }
    match objects {
        Table::Rows(rows) => {
            let mut ids: Vec<String> = Vec::new();
            let mut i: usize = 0;
            while i < rows.len()
                invariant
                    i <= rows@.len(),
                    ids@.len() == i,
                    forall|j: int| 0 <= j < i ==> (#[trigger] ids@[j])@ == rows@[j].described().id,
                    views(out@) == gather(places(rows@.len()).take(i as int), repeated_of(rows@)),
                decreases rows@.len() - i,
            {
                proof {
                    lemma_gather_step(places(rows@.len()), i as int, repeated_of(rows@));
                }
                let d = rows[i].describe();
                let mut seen = false;
                let mut j: usize = 0;
                while j < i && !seen
                    invariant
                        j <= i,
                        ids@.len() == i,
                        i < rows@.len(),
                        d@ == rows@[i as int].described(),
                        forall|k: int| 0 <= k < i ==> (#[trigger] ids@[k])@ == rows@[k].described().id,
                        seen ==> repeats(rows@, i as int),
                        !seen ==> forall|k: int| 0 <= k < j ==> (#[trigger] rows@[k]).described().id != d@.id,
                    decreases i - j + if seen { 0int } else { 1int },
                {
                    if ids[j] == d.id {
                        assert(rows@[j as int].described().id == rows@[i as int].described().id);
                        seen = true;
                    } else {
                        j += 1;
                    }
                }
                let found = if seen {
                    let mut issue = Issue::new(Severity::Error, IssueType::DuplicateObjectId, d.id.as_str());
                    issue.object_type = d.object_type;
                    Some(issue)
                } else {
                    None
                };
                push_one(&mut out, found);
                ids.push(d.id);
                i += 1;
            }
            assert(places(rows@.len()).take(i as int) =~= places(rows@.len()));
        },
        _ => {},
    }
    out
}

/// Whether the point at place `i` has the shape and the sequence number
/// of an earlier point.
pub open spec fn point_repeats(rows: Seq<Shape>, i: int) -> bool {
    exists|j: int| 0 <= j < i && (#[trigger] rows[j]).id@ == rows[i].id@ && rows[j].sequence == rows[i].sequence
}

/// The repeated sequence numbers of the shape with this id among the
/// first `n` points, in order.
pub open spec fn repeated_sequences(rows: Seq<Shape>, id: Seq<char>, n: nat) -> Seq<usize>
    decreases n,
{
    if n == 0 {
        Seq::empty()
    } else {
        repeated_sequences(rows, id, (n - 1) as nat) + if rows[n - 1].id@ == id && point_repeats(rows, n - 1) {
            seq![rows[n - 1].sequence]
        } else {
            Seq::empty()
        }
    }
}

/// The numbers in decimal with a comma and a space between them.
pub open spec fn joined(numbers: Seq<usize>) -> Seq<char>
    decreases numbers.len(),
{
    if numbers.len() == 0 {
        Seq::empty()
    } else if numbers.len() == 1 {
        decimal(numbers[0] as nat)
    } else {
        joined(numbers.drop_last()) + ", "@ + decimal(numbers.last() as nat)
    }
}

/// What is said of the repeated sequence numbers of a shape: the first
/// ten, and a mark where there are more.
pub open spec fn repeated_details(sequences: Seq<usize>) -> Seq<char> {
    "Shape has duplicated pt_sequence: "@ + if sequences.len() > MAX_DISPLAYED_PT_SEQUENCES {
        joined(sequences.take(MAX_DISPLAYED_PT_SEQUENCES as int)) + "…"@
    } else {
        joined(sequences)
    }
}

/// Whether the point at place `i` is the first repeated point of its shape.
pub open spec fn first_repeat(rows: Seq<Shape>, i: int) -> bool {
    point_repeats(rows, i) && forall|j: int| 0 <= j < i && (#[trigger] rows[j]).id@ == rows[i].id@ ==> !point_repeats(rows, j)
}

/// The issue on a shape, at the place of its first repeated point: it
/// lists the repeated sequence numbers of the shape.
pub open spec fn repeated_shape(rows: Seq<Shape>, i: int) -> Option<IssueView> {
    if first_repeat(rows, i) {
        Some(
            IssueView::bare(Severity::Error, IssueType::DuplicateObjectId, rows[i].id@).with_object_type(
                ObjectType::Shape,
            ).with_details(repeated_details(repeated_sequences(rows, rows[i].id@, rows.len()))),
        )
    } else {
        None
    }
}

pub open spec fn repeated_shape_of(rows: Seq<Shape>) -> spec_fn(int) -> Seq<IssueView> {
    |i: int| one(repeated_shape(rows, i))
}

/// The issues on shapes with repeated points: one for each such shape, in
/// the order of their first repeated points.
pub open spec fn shape_duplicate_issues(rows: Seq<Shape>) -> Seq<IssueView> {
    gather(places(rows.len()), repeated_shape_of(rows))
}

/// For each point, whether it repeats an earlier one.
fn repeat_flags(rows: &Vec<Shape>) -> (r: Vec<bool>)
    ensures
        r@.len() == rows@.len(),
        forall|i: int| 0 <= i < r@.len() ==> #[trigger] r@[i] == point_repeats(rows@, i),
{
    let mut flags: Vec<bool> = Vec::new();
    let mut i: usize = 0;
    while i < rows.len()
        invariant
            i <= rows@.len(),
            flags@.len() == i,
            forall|k: int| 0 <= k < i ==> #[trigger] flags@[k] == point_repeats(rows@, k),
        decreases rows@.len() - i,
    {
        let mut seen = false;
        let mut j: usize = 0;
        while j < i && !seen
            invariant
                j <= i,
                i < rows@.len(),
                seen ==> point_repeats(rows@, i as int),
                !seen ==> forall|k: int| 0 <= k < j ==> !((#[trigger] rows@[k]).id@ == rows@[i as int].id@ && rows@[k].sequence
                    == rows@[i as int].sequence),
            decreases i - j + if seen { 0int } else { 1int },
        {
            if rows[j].id == rows[i].id && rows[j].sequence == rows[i].sequence {
                seen = true;
            } else {
                j += 1;
            }
        }
        flags.push(seen);
        i += 1;
    }
    flags
}

/// Writes what is said of the repeated sequence numbers of a shape.
fn write_repeated_details(rows: &Vec<Shape>, flags: &Vec<bool>, id: &String) -> (r: String)
    requires
        flags@.len() == rows@.len(),
        forall|i: int| 0 <= i < flags@.len() ==> #[trigger] flags@[i] == point_repeats(rows@, i),
    ensures
        r@ == repeated_details(repeated_sequences(rows@, id@, rows@.len())),
{
    let mut shown_text = String::new();
    let mut count: usize = 0;
    let mut i: usize = 0;
    let ghost all = |n: nat| repeated_sequences(rows@, id@, n);
    assert(joined(all(0).take(0)) =~= Seq::<char>::empty()) by {
        assert(all(0).take(0) =~= Seq::<usize>::empty());
    }
    while i < rows.len()
        invariant
            flags@.len() == rows@.len(),
            forall|k: int| 0 <= k < flags@.len() ==> #[trigger] flags@[k] == point_repeats(rows@, k),
            all == |n: nat| repeated_sequences(rows@, id@, n),
            i <= rows@.len(),
            count == all(i as nat).len(),
            count <= i,
            shown_text@ == if count > MAX_DISPLAYED_PT_SEQUENCES {
                joined(all(i as nat).take(MAX_DISPLAYED_PT_SEQUENCES as int))
            } else {
                joined(all(i as nat))
            },
        decreases rows@.len() - i,
    {
        let ghost before = all(i as nat);
        if flags[i] && rows[i].id == *id {
            let ghost after = before.push(rows@[i as int].sequence);
            assert(all((i + 1) as nat) =~= after);
            if count < MAX_DISPLAYED_PT_SEQUENCES {
                let d = write_decimal(rows[i].sequence as u128);
                if count > 0 {
                    shown_text.append(", ");
                }
                shown_text.append(d.as_str());
                proof {
                    assert(after.drop_last() =~= before);
                    if count == 0 {
                        assert(joined(before) =~= Seq::<char>::empty());
                        assert(shown_text@ =~= joined(after));
                    }
                    if count + 1 > MAX_DISPLAYED_PT_SEQUENCES {
                        assert(false);
                    }
                }
            } else {
                proof {
                    assert(after.take(MAX_DISPLAYED_PT_SEQUENCES as int) =~= before.take(MAX_DISPLAYED_PT_SEQUENCES as int));
                    if count == MAX_DISPLAYED_PT_SEQUENCES {
                        assert(before.take(MAX_DISPLAYED_PT_SEQUENCES as int) =~= before);
                    }
                }
            }
            count += 1;
        } else {
            assert(all((i + 1) as nat) =~= before);
        }
        i += 1;
    }
    let mut r = str_to_string("Shape has duplicated pt_sequence: ");
    r.append(shown_text.as_str());
    if count > MAX_DISPLAYED_PT_SEQUENCES {
        r.append("…");
    }
    r
}

/// The issues on shapes with repeated points; none where the file is
/// absent or unreadable.
pub fn check_shapes_duplicates(objects: &Table<Shape>) -> (r: Vec<Issue>)
    ensures
        views(r@) == shape_duplicate_issues(objects.rows()),
{
    let mut out: Vec<Issue> = Vec::new();
    proof {
        lemma_views_empty();
        assert(places(objects.rows().len()).take(0) =~= Seq::empty());
    }
    match objects {
        Table::Rows(rows) => {
            let flags = repeat_flags(rows);
            let mut i: usize = 0;
            while i < rows.len()
                invariant
                    i <= rows@.len(),
                    flags@.len() == rows@.len(),
                    forall|k: int| 0 <= k < flags@.len() ==> #[trigger] flags@[k] == point_repeats(rows@, k),
                    views(out@) == gather(places(rows@.len()).take(i as int), repeated_shape_of(rows@)),
                decreases rows@.len() - i,
            {
                proof {
                    lemma_gather_step(places(rows@.len()), i as int, repeated_shape_of(rows@));
                }
                let mut first = flags[i];
                let mut j: usize = 0;
                while j < i && first
                    invariant
                        j <= i,
                        i < rows@.len(),
                        flags@.len() == rows@.len(),
                        forall|k: int| 0 <= k < flags@.len() ==> #[trigger] flags@[k] == point_repeats(rows@, k),
                        first ==> point_repeats(rows@, i as int),
                        first ==> forall|k: int| 0 <= k < j && (#[trigger] rows@[k]).id@ == rows@[i as int].id@ ==> !point_repeats(rows@, k),
                        !first ==> !first_repeat(rows@, i as int),
                    decreases i - j + if first { 1int } else { 0int },
                {
                    if flags[j] && rows[j].id == rows[i].id {
                        first = false;
                    } else {
                        j += 1;
                    }
                }
                let found = if first {
                    let d = write_repeated_details(rows, &flags, &rows[i].id);
                    Some(
                        Issue::new(Severity::Error, IssueType::DuplicateObjectId, rows[i].id.as_str()).object_type(
                            ObjectType::Shape,
                        ).details(d.as_str()),
                    )
                } else {
                    None
                };
                push_one(&mut out, found);
                i += 1;
            }
            assert(places(rows@.len()).take(i as int) =~= places(rows@.len()));
        },
        _ => {},
    }
    out
}

/// The issues on repeated ids: stops, routes, trips, agencies, pathways,
/// calendars and fares, then the shapes with repeated points.
pub open spec fn raw_issues(raw_gtfs: RawGtfs) -> Seq<IssueView> {
    duplicate_issues(raw_gtfs.stops.rows()) + duplicate_issues(raw_gtfs.routes.rows()) + duplicate_issues(
        raw_gtfs.trips.rows(),
    ) + duplicate_issues(raw_gtfs.agencies.rows()) + duplicate_issues(raw_gtfs.pathways.rows()) + duplicate_issues(
        raw_gtfs.calendar.rows(),
    ) + duplicate_issues(raw_gtfs.fare_attributes.rows()) + shape_duplicate_issues(raw_gtfs.shapes.rows())
}

/// The issues on repeated ids.
pub fn validate(raw_gtfs: &RawGtfs) -> (r: Vec<Issue>)
    ensures
        views(r@) == raw_issues(*raw_gtfs),
{
    let mut out = check_duplicates(&raw_gtfs.stops);
    extend(&mut out, check_duplicates(&raw_gtfs.routes));
    extend(&mut out, check_duplicates(&raw_gtfs.trips));
    extend(&mut out, check_duplicates(&raw_gtfs.agencies));
    extend(&mut out, check_duplicates(&raw_gtfs.pathways));
    extend(&mut out, check_duplicates(&raw_gtfs.calendar));
    extend(&mut out, check_duplicates(&raw_gtfs.fare_attributes));
    extend(&mut out, check_shapes_duplicates(&raw_gtfs.shapes));
    out
}

} // verus!
