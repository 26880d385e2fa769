//! The calls into `chrono` that the library makes: the current time and
//! day, the month of a `YYYY-MM-DD` date, and the text of a day.
use vstd::prelude::*;

verus! {

/// `chrono::Utc::now().timestamp()`: the current time as a Unix timestamp
/// in whole seconds. It reads the system clock, so nothing is promised of
/// the value.
#[verifier::external_body]
pub(crate) fn now_timestamp() -> i64 {
    chrono::Utc::now().timestamp()
}

/// What `chrono::NaiveDate::parse_from_str(date, "%Y-%m-%d")` followed by
/// `month()` gives for a date text: `None` when the text does not parse.
pub uninterp spec fn parsed_month(date: Seq<char>) -> Option<u32>;

/// Parses `date` with `chrono::NaiveDate::parse_from_str` and the format
/// `%Y-%m-%d`, and gives the month (`1..=12`, from `NaiveDate::month`) of a
/// date that parses. The result is the named `parsed_month` of the text;
/// the contract adds only the range of `month()` that chrono documents.
#[verifier::external_body]
pub(crate) fn parse_month(date: &str) -> (m: Option<u32>)
    ensures
        m == parsed_month(date@),
        m matches Some(k) ==> 1 <= k <= 12,
{
    match chrono::NaiveDate::parse_from_str(date, "%Y-%m-%d") {
        Ok(d) => Some(chrono::Datelike::month(&d)),
        Err(_) => None,
    }
}

/// The number, counted from 1970-01-01, of `chrono::NaiveDate::MIN`
/// (-262143-01-01), the first day that chrono's dates reach.
pub const FIRST_DAY: i64 = -96_465_292;

/// The number, counted from 1970-01-01, of `chrono::NaiveDate::MAX`
/// (262142-12-31), the last day that chrono's dates reach.
pub const LAST_DAY: i64 = 95_026_236;

/// The number of the current UTC day, counted from 1970-01-01:
/// `chrono::Utc::now().date_naive()` less `NaiveDate::default()` (which is
/// 1970-01-01), in whole days. It reads the system clock; the contract says
/// only that the day is one of chrono's dates, as every `NaiveDate` is.
#[verifier::external_body]
pub(crate) fn today_number() -> (d: i64)
    ensures
        FIRST_DAY <= d <= LAST_DAY,
{
    (chrono::Utc::now().date_naive() - chrono::NaiveDate::default()).num_days()
}

/// What chrono writes with the format `%Y-%m-%d` for the day numbered `day`
/// from 1970-01-01.
pub uninterp spec fn day_text(day: i64) -> Seq<char>;

/// The `%Y-%m-%d` text of the day numbered `day`: `NaiveDate::default()`
/// (1970-01-01) plus `TimeDelta::days(day)`, formatted by chrono. The sum
/// panics outside chrono's dates, which `requires` leaves out; the result
/// is the named `day_text` of the number.
#[verifier::external_body]
pub(crate) fn format_day(day: i64) -> (s: String)
    requires
        FIRST_DAY <= day <= LAST_DAY,
    ensures
        s@ == day_text(day),
{
    (chrono::NaiveDate::default() + chrono::TimeDelta::days(day)).format("%Y-%m-%d").to_string()
}

} // verus!
