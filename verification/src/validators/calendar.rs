//! A feed without any calendar.
use vstd::prelude::*;
use crate::collect::views;
use crate::issues::{Issue, IssueType, IssueView, Severity};
use crate::model::Gtfs;

verus! {

/// One feed-wide warning where the model has neither a calendar nor a
/// calendar date; else nothing.
pub open spec fn calendar_issues(gtfs: Gtfs) -> Seq<IssueView> {
    if gtfs.calendar@.len() == 0 && gtfs.calendar_dates@.len() == 0 {
        seq![IssueView::bare(Severity::Warning, IssueType::NoCalendar, Seq::empty())]
    } else {
        Seq::empty()
    }
}

/// The issue on a feed without any calendar.
pub fn validate(gtfs: &Gtfs) -> (r: Vec<Issue>)
    ensures
        views(r@) == calendar_issues(*gtfs),
{
    let mut out: Vec<Issue> = Vec::new();
    if gtfs.calendar.len() == 0 && gtfs.calendar_dates.len() == 0 {
        let empty = String::new();
        out.push(Issue::new(Severity::Warning, IssueType::NoCalendar, empty.as_str()));
    }
    assert(views(out@) =~= calendar_issues(*gtfs));
    out
}

} // verus!
