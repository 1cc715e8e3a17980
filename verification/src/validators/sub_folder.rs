//! An archive whose files lie in a folder of their own: the feed was
//! zipped with the folder around it.
use vstd::prelude::*;
use vstd::string::StringExecFns;
use crate::collect::{first_where, lemma_first_absent, lemma_first_found, views};
use crate::issues::{Issue, IssueType, IssueView, Severity, texts};
use crate::lookup::{ends_with, is_suffix, parent_of_path, path_parent};
use crate::model::RawGtfs;
use crate::text::str_to_string;

verus! {

/// The folder that a file lies in, where its name ends in stops.txt and
/// it has a parent other than the empty one.
pub open spec fn folder_of(file: Seq<char>) -> Option<Seq<char>> {
    if is_suffix(file, "stops.txt"@) {
        match path_parent(file) {
            Some(p) => if p.len() > 0 {
                Some(p)
            } else {
                None
            },
            None => None,
        }
    } else {
        None
    }
}

/// The files that lie in a folder.
pub open spec fn in_folder() -> spec_fn(Seq<char>) -> bool {
    |file: Seq<char>| folder_of(file) is Some
}

/// One error that names the folder of the first stops.txt that lies in
/// one; nothing where there is none.
pub open spec fn sub_folder_issues(files: Seq<Seq<char>>) -> Seq<IssueView> {
    match first_where(files, in_folder()) {
        Some(k) => {
            let parent = folder_of(files[k]).unwrap();
            seq![
                IssueView::bare(Severity::Error, IssueType::SubFolder, parent).with_details(
                    "Data is contained in a subfolder: "@ + parent,
                ),
            ]
        },
        None => Seq::empty(),
    }
}

fn folder(file: &str) -> (r: Option<String>)
    ensures
        crate::issues::opt_text(r) == folder_of(file@),
{
    if ends_with(file, "stops.txt") {
        match parent_of_path(file) {
            Some(p) => if p.as_str().is_empty() {
                None
            } else {
                Some(p)
            },
            None => None,
        }
    } else {
        None
    }
}

/// The issue on an archive whose stops.txt lies in a folder.
pub fn validate(raw_gtfs: &RawGtfs) -> (r: Vec<Issue>)
    ensures
        views(r@) == sub_folder_issues(texts(raw_gtfs.files@)),
{
    let ghost files = texts(raw_gtfs.files@);
    let mut issues: Vec<Issue> = Vec::new();
    let mut k: usize = 0;
    while k < raw_gtfs.files.len()
        invariant
            files == texts(raw_gtfs.files@),
            k <= raw_gtfs.files@.len(),
            issues@.len() == 0,
            forall|j: int| 0 <= j < k ==> !in_folder()(#[trigger] files[j]),
        decreases raw_gtfs.files@.len() - k,
    {
        assert(files[k as int] == raw_gtfs.files@[k as int]@);
        match folder(raw_gtfs.files[k].as_str()) {
            Some(parent) => {
                let mut d = str_to_string("Data is contained in a subfolder: ");
                d.append(parent.as_str());
                issues.push(Issue::new(Severity::Error, IssueType::SubFolder, parent.as_str()).details(d.as_str()));
                proof {
                    lemma_first_found(files, in_folder(), k as int);
                    assert(views(issues@) =~= sub_folder_issues(files));
                }
                return issues;
            },
            None => {},
        }
        k += 1;
    }
    proof {
        lemma_first_absent(files, in_folder());
        assert(views(issues@) =~= sub_folder_issues(files));
    }
    issues
}

} // verus!
