//! What the library asks of other crates and of std: each answer has a
//! name, and the rules are stated over those names.
use vstd::prelude::*;
use crate::issues::opt_text;

verus! {

/// The scheme of the URL that the `url` crate reads from this text; `None`
/// where it reads none.
pub uninterp spec fn url_scheme(text: Seq<char>) -> Option<Seq<char>>;

/// `url::Url::parse`, then `Url::scheme`: the scheme of the URL read from
/// the text, `None` where parsing fails.
#[verifier::external_body]
pub(crate) fn parse_url_scheme(text: &str) -> (r: Option<String>)
    ensures
        opt_text(r) == url_scheme(text@),
{
    match url::Url::parse(text) {
        Ok(u) => Some(u.scheme().to_string()),
        Err(_) => None,
    }
}

/// Whether `chrono_tz` reads this text as the name of a time zone.
pub uninterp spec fn timezone_known(text: Seq<char>) -> bool;

/// `<chrono_tz::Tz as FromStr>::from_str`: whether the text names a time
/// zone of the IANA database.
#[verifier::external_body]
pub(crate) fn is_timezone(text: &str) -> (r: bool)
    ensures
        r == timezone_known(text@),
{
    text.parse::<chrono_tz::Tz>().is_ok()
}

/// Whether `isolang` knows this text as a two-letter ISO 639-1 code.
pub uninterp spec fn iso_639_1_known(code: Seq<char>) -> bool;

/// `isolang::Language::from_639_1`: whether it finds a language.
#[verifier::external_body]
pub(crate) fn is_iso_639_1(code: &str) -> (r: bool)
    ensures
        r == iso_639_1_known(code@),
{
    isolang::Language::from_639_1(code).is_some()
}

/// Whether `isolang` knows this text as a three-letter ISO 639-3 code.
pub uninterp spec fn iso_639_3_known(code: Seq<char>) -> bool;

/// `isolang::Language::from_639_3`: whether it finds a language.
#[verifier::external_body]
pub(crate) fn is_iso_639_3(code: &str) -> (r: bool)
    ensures
        r == iso_639_3_known(code@),
{
    isolang::Language::from_639_3(code).is_some()
}

/// Whether `isolang` finds the language of this locale.
pub uninterp spec fn locale_known(locale: Seq<char>) -> bool;

/// `isolang::Language::from_locale`: whether it finds a language.
#[verifier::external_body]
pub(crate) fn is_locale(locale: &str) -> (r: bool)
    ensures
        r == locale_known(locale@),
{
    isolang::Language::from_locale(locale).is_some()
}

/// Whether `iso4217` knows this text as a three-letter currency code.
pub uninterp spec fn currency_known(code: Seq<char>) -> bool;

/// `iso4217::alpha3`: whether it finds a currency.
#[verifier::external_body]
pub(crate) fn is_currency(code: &str) -> (r: bool)
    ensures
        r == currency_known(code@),
{
    iso4217::alpha3(code).is_some()
}

/// The text in lower case, as std's `str::to_lowercase` gives it.
pub uninterp spec fn lowercase(text: Seq<char>) -> Seq<char>;

/// `str::to_lowercase`.
#[verifier::external_body]
pub(crate) fn to_lowercase(text: &str) -> (r: String)
    ensures
        r@ == lowercase(text@),
{
    text.to_lowercase()
}

/// Whether `suffix` stands at the end of `text`.
pub open spec fn is_suffix(text: Seq<char>, suffix: Seq<char>) -> bool {
    suffix.len() <= text.len() && text.subrange(text.len() - suffix.len(), text.len() as int) == suffix
}

/// `str::ends_with` with a string slice as the pattern: whether the
/// pattern matches a suffix of the text.
#[verifier::external_body]
pub(crate) fn ends_with(text: &str, suffix: &str) -> (r: bool)
    ensures
        r == is_suffix(text@, suffix@),
{
    text.ends_with(suffix)
}

/// The parent of a path as std's `Path::parent` gives it; `None` where the
/// path has none.
pub uninterp spec fn path_parent(path: Seq<char>) -> Option<Seq<char>>;

/// `std::path::Path::parent` of the path with this text.
#[verifier::external_body]
pub(crate) fn parent_of_path(path: &str) -> (r: Option<String>)
    ensures
        opt_text(r) == path_parent(path@),
{
    std::path::Path::new(path).parent().map(|p| p.to_string_lossy().into_owned())
}

/// What chrono writes for the day with this number, January 1 of year 1
/// being day 1, in the form year-month-day; `None` where chrono has no
/// such day.
pub uninterp spec fn date_text(days: i32) -> Option<Seq<char>>;

/// Writes a day as year-month-day: `chrono::NaiveDate::from_num_days_from_ce_opt`
/// followed by `format("%Y-%m-%d")`. The result is what chrono gives for
/// this day number, and `None` where chrono has no such day.
#[verifier::external_body]
pub(crate) fn format_date(days: i32) -> (r: Option<String>)
    ensures
        opt_text(r) == date_text(days),
{
    chrono::NaiveDate::from_num_days_from_ce_opt(days).map(|d| d.format("%Y-%m-%d").to_string())
}

/// The day that chrono reads from a text of the form year-month-day, by
/// its number, January 1 of year 1 being day 1; `None` where it reads none.
pub uninterp spec fn date_of_text(text: Seq<char>) -> Option<i32>;

/// `<chrono::NaiveDate as FromStr>::from_str`, then
/// `Datelike::num_days_from_ce`.
#[verifier::external_body]
pub(crate) fn parse_date(text: &str) -> (r: Option<i32>)
    ensures
        r == date_of_text(text@),
{
    match text.parse::<chrono::NaiveDate>() {
        Ok(d) => Some(chrono::Datelike::num_days_from_ce(&d)),
        Err(_) => None,
    }
}

} // verus!
