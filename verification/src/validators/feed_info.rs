//! Feed infos: the publisher's URL and language.
use vstd::prelude::*;
use vstd::string::StringExecFns;
use crate::collect::{collect, extend, gather, one, shown, views};
use crate::issues::{Issue, IssueType, IssueView, Severity};
use crate::lookup::{is_iso_639_1, is_iso_639_3, is_locale, iso_639_1_known, iso_639_3_known, locale_known, lowercase, to_lowercase};
use crate::model::{FeedInfo, Gtfs};
use crate::text::str_to_string;
use crate::validators::agency::{is_valid_url, is_web_url};

verus! {

/// A feed-wide issue that shows the publisher's name.
pub open spec fn feed_issue(feed: FeedInfo, severity: Severity, issue_type: IssueType) -> IssueView {
    IssueView::bare(severity, issue_type, Seq::empty()).with_name(feed.name@)
}

/// Whether a language code resolves: in lower case, with its length in
/// bytes as a machine counts it, as a two-letter code, a three-letter
/// code, or a locale of four to eleven bytes.
pub open spec fn language_known(lang: Seq<char>) -> bool {
    let code = lowercase(lang);
    let len = vstd::utf8::encode_utf8(code).len() as usize;
    if len == 2 {
        iso_639_1_known(code)
    } else if len == 3 {
        iso_639_3_known(code)
    } else if 4 <= len <= 11 {
        locale_known(code)
    } else {
        false
    }
}

pub open spec fn missing_url_of() -> spec_fn(FeedInfo) -> Seq<IssueView> {
    |f: FeedInfo| if f.url@.len() == 0 {
        seq![feed_issue(f, Severity::Error, IssueType::MissingUrl)]
    } else {
        Seq::empty()
    }
}

pub open spec fn invalid_url_of() -> spec_fn(FeedInfo) -> Seq<IssueView> {
    |f: FeedInfo| if f.url@.len() > 0 && !is_web_url(f.url@) {
        seq![
            feed_issue(f, Severity::Error, IssueType::InvalidUrl).with_details(
                "The feed_publisher_url (in feed_info.txt) "@ + f.url@ + " is invalid"@,
            ),
        ]
    } else {
        Seq::empty()
    }
}

pub open spec fn missing_lang_of() -> spec_fn(FeedInfo) -> Seq<IssueView> {
    |f: FeedInfo| if f.lang@.len() == 0 {
        seq![feed_issue(f, Severity::Warning, IssueType::MissingLanguage)]
    } else {
        Seq::empty()
    }
}

pub open spec fn invalid_lang_of() -> spec_fn(FeedInfo) -> Seq<IssueView> {
    |f: FeedInfo| if !language_known(f.lang@) {
        seq![
            feed_issue(f, Severity::Warning, IssueType::InvalidLanguage).with_details(
                "Language code "@ + f.lang@ + " does not exist"@,
            ),
        ]
    } else {
        Seq::empty()
    }
}

/// The issues on feed infos: missing URLs, then invalid URLs, then missing
/// languages, then languages that do not resolve.
pub open spec fn feed_info_issues(gtfs: Gtfs) -> Seq<IssueView> {
    gather(gtfs.feed_info@, missing_url_of()) + gather(gtfs.feed_info@, invalid_url_of()) + gather(
        gtfs.feed_info@,
        missing_lang_of(),
    ) + gather(gtfs.feed_info@, invalid_lang_of())
}

fn make_issue(feed: &FeedInfo, severity: Severity, issue_type: IssueType) -> (r: Issue)
    ensures
        r@ == feed_issue(*feed, severity, issue_type),
{
    let empty = String::new();
    Issue::new(severity, issue_type, empty.as_str()).name(feed.name.as_str())
}

/// Whether the feed info has no URL.
pub fn is_missing_url(feed: &FeedInfo) -> (r: bool)
    ensures
        r == (feed.url@.len() == 0),
{
    feed.url.as_str().is_empty()
}

/// Whether the URL of the feed info is not a web URL.
pub fn is_invalid_url(feed: &FeedInfo) -> (r: bool)
    ensures
        r == !is_web_url(feed.url@),
{
    !is_valid_url(feed.url.as_str())
}

/// Whether the feed info has no language.
pub fn missing_lang(feed: &FeedInfo) -> (r: bool)
    ensures
        r == (feed.lang@.len() == 0),
{
    feed.lang.as_str().is_empty()
}

/// Whether the language of the feed info does not resolve.
pub fn invalid_lang(feed: &FeedInfo) -> (r: bool)
    ensures
        r == !language_known(feed.lang@),
{
    let lang = to_lowercase(feed.lang.as_str());
    let len = lang.as_str().len();
    let known = if len == 2 {
        is_iso_639_1(lang.as_str())
    } else if len == 3 {
        is_iso_639_3(lang.as_str())
    } else if 4 <= len && len <= 11 {
        is_locale(lang.as_str())
    } else {
        false
    };
    !known
}

fn check_missing_url(f: &FeedInfo) -> (r: Option<Issue>)
    ensures
        one(shown(r)) == missing_url_of()(*f),
{
    if is_missing_url(f) { Some(make_issue(f, Severity::Error, IssueType::MissingUrl)) } else { None }
}

fn check_invalid_url(f: &FeedInfo) -> (r: Option<Issue>)
    ensures
        one(shown(r)) == invalid_url_of()(*f),
{
    if !is_missing_url(f) && is_invalid_url(f) {
        let mut d = str_to_string("The feed_publisher_url (in feed_info.txt) ");
        d.append(f.url.as_str());
        d.append(" is invalid");
        Some(make_issue(f, Severity::Error, IssueType::InvalidUrl).details(d.as_str()))
    } else {
        None
    }
}

fn check_missing_lang(f: &FeedInfo) -> (r: Option<Issue>)
    ensures
        one(shown(r)) == missing_lang_of()(*f),
{
    if missing_lang(f) { Some(make_issue(f, Severity::Warning, IssueType::MissingLanguage)) } else { None }
}

fn check_invalid_lang(f: &FeedInfo) -> (r: Option<Issue>)
    ensures
        one(shown(r)) == invalid_lang_of()(*f),
{
    if invalid_lang(f) {
        let mut d = str_to_string("Language code ");
        d.append(f.lang.as_str());
        d.append(" does not exist");
        Some(make_issue(f, Severity::Warning, IssueType::InvalidLanguage).details(d.as_str()))
    } else {
        None
    }
}

/// The issues on feed infos.
pub fn validate(gtfs: &Gtfs) -> (r: Vec<Issue>)
    ensures
        views(r@) == feed_info_issues(*gtfs),
{
    let feeds = &gtfs.feed_info;
    let mut out = collect(feeds, check_missing_url, Ghost(missing_url_of()));
    extend(&mut out, collect(feeds, check_invalid_url, Ghost(invalid_url_of())));
    extend(&mut out, collect(feeds, check_missing_lang, Ghost(missing_lang_of())));
    extend(&mut out, collect(feeds, check_invalid_lang, Ghost(invalid_lang_of())));
    out
}

} // verus!
