//! Fares: price, currency, transfers and transfer duration.
use vstd::prelude::*;
use crate::collect::{collect, extend, gather, one, shown, views};
use crate::issues::{Issue, IssueType, IssueView, ObjectType, Severity};
use crate::lookup::{currency_known, is_currency};
use crate::model::{FareAttribute, Gtfs, Transfers};

verus! {

/// An error of this category on the fare.
pub open spec fn fare_issue(fare: FareAttribute, issue_type: IssueType) -> IssueView {
    IssueView::bare(Severity::Error, issue_type, fare.id@).with_object_type(ObjectType::Fare)
}

/// Whether the fare has a price.
pub open spec fn priced(fare: FareAttribute) -> bool {
    fare.price@.len() > 0
}

/// Whether the number of transfers of the fare is a recognized one.
pub open spec fn transfers_recognized(fare: FareAttribute) -> bool {
    !(fare.transfers is Other)
}

/// Whether the transfer duration of the fare is unset or not negative.
pub open spec fn duration_allowed(fare: FareAttribute) -> bool {
    match fare.transfer_duration {
        Some(d) => d >= 0,
        None => true,
    }
}

pub open spec fn missing_price_of() -> spec_fn(FareAttribute) -> Seq<IssueView> {
    |f: FareAttribute| if priced(f) { Seq::empty() } else { seq![fare_issue(f, IssueType::MissingPrice)] }
}

pub open spec fn invalid_currency_of() -> spec_fn(FareAttribute) -> Seq<IssueView> {
    |f: FareAttribute| if currency_known(f.currency@) { Seq::empty() } else { seq![fare_issue(f, IssueType::InvalidCurrency)] }
}

pub open spec fn invalid_transfers_of() -> spec_fn(FareAttribute) -> Seq<IssueView> {
    |f: FareAttribute| if transfers_recognized(f) { Seq::empty() } else { seq![fare_issue(f, IssueType::InvalidTransfers)] }
}

pub open spec fn invalid_duration_of() -> spec_fn(FareAttribute) -> Seq<IssueView> {
    |f: FareAttribute| if duration_allowed(f) { Seq::empty() } else { seq![fare_issue(f, IssueType::InvalidTransferDuration)] }
}

/// The issues on fares: missing prices, then unknown currencies, then
/// unrecognized transfers, then negative transfer durations.
pub open spec fn fare_issues(gtfs: Gtfs) -> Seq<IssueView> {
    gather(gtfs.fare_attributes@, missing_price_of()) + gather(gtfs.fare_attributes@, invalid_currency_of()) + gather(
        gtfs.fare_attributes@,
        invalid_transfers_of(),
    ) + gather(gtfs.fare_attributes@, invalid_duration_of())
}

fn make_issue(fare: &FareAttribute, issue_type: IssueType) -> (r: Issue)
    ensures
        r@ == fare_issue(*fare, issue_type),
{
    Issue::new(Severity::Error, issue_type, fare.id.as_str()).object_type(ObjectType::Fare)
}

/// Whether the fare has a price.
pub fn has_price(fare_attributes: &FareAttribute) -> (r: bool)
    ensures
        r == priced(*fare_attributes),
{
    !fare_attributes.price.as_str().is_empty()
}

/// Whether the currency of the fare is a known one.
pub fn valid_currency(fare_attributes: &FareAttribute) -> (r: bool)
    ensures
        r == currency_known(fare_attributes.currency@),
{
    is_currency(fare_attributes.currency.as_str())
}

/// Whether the number of transfers of the fare is a recognized one.
pub fn valid_transfers(fare_attributes: &FareAttribute) -> (r: bool)
    ensures
        r == transfers_recognized(*fare_attributes),
{
    match fare_attributes.transfers {
        Transfers::Other(_) => false,
        _ => true,
    }
}

/// Whether the transfer duration of the fare is unset or not negative.
pub fn valid_duration(fare_attributes: &FareAttribute) -> (r: bool)
    ensures
        r == duration_allowed(*fare_attributes),
{
    match fare_attributes.transfer_duration {
        Some(d) => d >= 0,
        None => true,
    }
}

fn check_price(f: &FareAttribute) -> (r: Option<Issue>)
    ensures
        one(shown(r)) == missing_price_of()(*f),
{
    if !has_price(f) { Some(make_issue(f, IssueType::MissingPrice)) } else { None }
}

fn check_currency(f: &FareAttribute) -> (r: Option<Issue>)
    ensures
        one(shown(r)) == invalid_currency_of()(*f),
{
    if !valid_currency(f) { Some(make_issue(f, IssueType::InvalidCurrency)) } else { None }
}

fn check_transfers(f: &FareAttribute) -> (r: Option<Issue>)
    ensures
        one(shown(r)) == invalid_transfers_of()(*f),
{
    if !valid_transfers(f) { Some(make_issue(f, IssueType::InvalidTransfers)) } else { None }
}

fn check_duration(f: &FareAttribute) -> (r: Option<Issue>)
    ensures
        one(shown(r)) == invalid_duration_of()(*f),
{
    if !valid_duration(f) { Some(make_issue(f, IssueType::InvalidTransferDuration)) } else { None }
}

/// The issues on fares.
pub fn validate(gtfs: &Gtfs) -> (r: Vec<Issue>)
    ensures
        views(r@) == fare_issues(*gtfs),
{
    let fares = &gtfs.fare_attributes;
    let mut out = collect(fares, check_price, Ghost(missing_price_of()));
    extend(&mut out, collect(fares, check_currency, Ghost(invalid_currency_of())));
    extend(&mut out, collect(fares, check_transfers, Ghost(invalid_transfers_of())));
    extend(&mut out, collect(fares, check_duration, Ghost(invalid_duration_of())));
    out
}

} // verus!
