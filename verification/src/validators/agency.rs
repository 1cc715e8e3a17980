//! Agencies: their URL and their time zone.
use vstd::prelude::*;
use vstd::string::StringExecFns;
use crate::collect::{collect, extend, gather, one, same_text, shown, views};
use crate::issues::{Described, Issue, IssueType, IssueView, Severity};
use crate::lookup::{is_timezone, parse_url_scheme, timezone_known, url_scheme};
use crate::model::{Agency, Gtfs};
use crate::text::str_to_string;

verus! {

/// Whether the text is a URL with the scheme http or https.
pub open spec fn is_web_url(text: Seq<char>) -> bool {
    match url_scheme(text) {
        Some(s) => s == "https"@ || s == "http"@,
        None => false,
    }
}

/// Whether the text is a URL with the scheme http or https.
pub fn is_valid_url(text: &str) -> (r: bool)
    ensures
        r == is_web_url(text@),
{
    match parse_url_scheme(text) {
        Some(s) => same_text(s.as_str(), "https") || same_text(s.as_str(), "http"),
        None => false,
    }
}

/// The issue on an agency without a URL.
pub open spec fn missing_url(agency: Agency) -> Option<IssueView> {
    if agency.url@.len() == 0 {
        Some(IssueView::about(Severity::Error, IssueType::MissingUrl, agency.described()))
    } else {
        None
    }
}

/// The issue on an agency whose URL is not a web URL.
pub open spec fn invalid_url(agency: Agency) -> Option<IssueView> {
    if agency.url@.len() > 0 && !is_web_url(agency.url@) {
        Some(
            IssueView::about(Severity::Error, IssueType::InvalidUrl, agency.described()).with_details(
                "The agency_url (in agency.txt) "@ + agency.url@ + " is invalid"@,
            ),
        )
    } else {
        None
    }
}

/// The issue on an agency whose time zone is not a known one.
pub open spec fn invalid_timezone(agency: Agency) -> Option<IssueView> {
    if !timezone_known(agency.timezone@) {
        Some(IssueView::about(Severity::Error, IssueType::InvalidTimezone, agency.described()))
    } else {
        None
    }
}

pub open spec fn missing_url_of() -> spec_fn(Agency) -> Seq<IssueView> {
    |a: Agency| one(missing_url(a))
}

pub open spec fn invalid_url_of() -> spec_fn(Agency) -> Seq<IssueView> {
    |a: Agency| one(invalid_url(a))
}

pub open spec fn invalid_timezone_of() -> spec_fn(Agency) -> Seq<IssueView> {
    |a: Agency| one(invalid_timezone(a))
}

/// The issues on agencies: missing URLs, then invalid URLs, then unknown
/// time zones.
pub open spec fn agency_issues(gtfs: Gtfs) -> Seq<IssueView> {
    gather(gtfs.agencies@, missing_url_of()) + gather(gtfs.agencies@, invalid_url_of()) + gather(
        gtfs.agencies@,
        invalid_timezone_of(),
    )
}

/// Whether the agency has a URL.
pub fn has_url(agency: &Agency) -> (r: bool)
    ensures
        r == (agency.url@.len() > 0),
{
    !agency.url.as_str().is_empty()
}

/// Whether the URL of the agency is a web URL.
pub fn valid_url(agency: &Agency) -> (r: bool)
    ensures
        r == is_web_url(agency.url@),
{
    is_valid_url(agency.url.as_str())
}

/// Whether the time zone of the agency is a known one.
pub fn valid_timezone(agency: &Agency) -> (r: bool)
    ensures
        r == timezone_known(agency.timezone@),
{
    is_timezone(agency.timezone.as_str())
}

fn check_missing_url(agency: &Agency) -> (r: Option<Issue>)
    ensures
        shown(r) == missing_url(*agency),
{
    if !has_url(agency) {
        Some(Issue::new_with_obj(Severity::Error, IssueType::MissingUrl, agency))
    } else {
        None
    }
}

fn check_invalid_url(agency: &Agency) -> (r: Option<Issue>)
    ensures
        shown(r) == invalid_url(*agency),
{
    if has_url(agency) && !valid_url(agency) {
        let mut d = str_to_string("The agency_url (in agency.txt) ");
        d.append(agency.url.as_str());
        d.append(" is invalid");
        Some(Issue::new_with_obj(Severity::Error, IssueType::InvalidUrl, agency).details(d.as_str()))
    } else {
        None
    }
}

fn check_timezone(agency: &Agency) -> (r: Option<Issue>)
    ensures
        shown(r) == invalid_timezone(*agency),
{
    if !valid_timezone(agency) {
        Some(Issue::new_with_obj(Severity::Error, IssueType::InvalidTimezone, agency))
    } else {
        None
    }
}

/// The issues on agencies.
pub fn validate(gtfs: &Gtfs) -> (r: Vec<Issue>)
    ensures
        views(r@) == agency_issues(*gtfs),
{
    let mut out = collect(&gtfs.agencies, check_missing_url, Ghost(missing_url_of()));
    extend(&mut out, collect(&gtfs.agencies, check_invalid_url, Ghost(invalid_url_of())));
    extend(&mut out, collect(&gtfs.agencies, check_timezone, Ghost(invalid_timezone_of())));
    out
}

} // verus!
