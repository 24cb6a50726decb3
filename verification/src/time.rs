//! Calendar work done by `chrono`: reading date-time text and writing UTC instants.
//!
//! Each call is a trusted item with the contract stated below it. Reading a date-time
//! without a zone depends on the machine's time zone, so nothing is promised of the
//! instant it gives; whether the text reads as a date-time at all is named.

use vstd::prelude::*;
use chrono::TimeZone;

verus! {

/// `chrono::NaiveDateTime`: a calendar date and wall-clock time without a zone.
#[verifier::external_type_specification]
#[verifier::external_body]
pub struct ExNaiveDateTime(chrono::NaiveDateTime);

/// `chrono::NaiveDate`: a calendar date.
#[verifier::external_type_specification]
#[verifier::external_body]
pub struct ExNaiveDate(chrono::NaiveDate);

pub const PATTERN_ISO_MILLIS: &'static str = "%Y-%m-%dT%H:%M:%S%.3fZ";
pub const PATTERN_DATE: &'static str = "%Y-%m-%d";
pub const PATTERN_DATE_TIME: &'static str = "%Y-%m-%d %H:%M:%S";

/// The patterns the library formats instants with.
pub open spec fn known_pattern(p: Seq<char>) -> bool {
    p == PATTERN_ISO_MILLIS@ || p == PATTERN_DATE@ || p == PATTERN_DATE_TIME@
}

/// What `chrono` writes for the UTC instant `seconds` after the epoch with `pattern`;
/// `None` when the instant is outside chrono's range.
pub uninterp spec fn utc_text(seconds: int, pattern: Seq<char>) -> Option<Seq<char>>;

/// What `chrono::DateTime::parse_from_rfc3339` reads from `text`, as seconds since the
/// epoch.
pub uninterp spec fn rfc3339_instant(text: Seq<char>) -> Option<int>;

/// `Utc.timestamp_opt(seconds, 0).single()` written with `DateTime::format(pattern)`.
/// The result is named: it depends on `seconds` and `pattern` alone.
#[verifier::external_body]
pub(crate) fn utc_format(seconds: i64, pattern: &str) -> (r: Option<String>)
    requires
        known_pattern(pattern@),
    ensures
        r matches Some(t) ==> utc_text(seconds as int, pattern@) == Some(t@),
        r is None ==> utc_text(seconds as int, pattern@) is None,
{
    chrono::Utc.timestamp_opt(seconds, 0).single().map(|dt| dt.format(pattern).to_string())
}

/// `chrono::DateTime::parse_from_rfc3339(text)`, taken as seconds since the epoch
/// (`DateTime::timestamp`). The result is named: it depends on `text` alone.
#[verifier::external_body]
pub(crate) fn rfc3339_seconds(text: &str) -> (r: Option<i64>)
    ensures
        r matches Some(v) ==> rfc3339_instant(text@) == Some(v as int),
        r is None ==> rfc3339_instant(text@) is None,
{
    chrono::DateTime::parse_from_rfc3339(text).ok().map(|d| d.timestamp())
}

/// Whether `chrono::NaiveDateTime::parse_from_str` reads `text` with `pattern`.
pub uninterp spec fn naive_datetime_parses(text: Seq<char>, pattern: Seq<char>) -> bool;

/// Whether `chrono::NaiveDate::parse_from_str` reads `text` with `pattern`.
pub uninterp spec fn naive_date_parses(text: Seq<char>, pattern: Seq<char>) -> bool;

/// `chrono::NaiveDateTime::parse_from_str(text, pattern)`. Whether it succeeds is named:
/// it depends on `text` and `pattern` alone. The date-time read is not stated.
#[verifier::external_body]
pub(crate) fn parse_naive_datetime(text: &str, pattern: &str) -> (r: Option<chrono::NaiveDateTime>)
    ensures
        r is Some <==> naive_datetime_parses(text@, pattern@),
{
    chrono::NaiveDateTime::parse_from_str(text, pattern).ok()
}

/// `chrono::NaiveDate::parse_from_str(text, pattern)`. Whether it succeeds is named: it
/// depends on `text` and `pattern` alone. The date read is not stated.
#[verifier::external_body]
pub(crate) fn parse_naive_date(text: &str, pattern: &str) -> (r: Option<chrono::NaiveDate>)
    ensures
        r is Some <==> naive_date_parses(text@, pattern@),
{
    chrono::NaiveDate::parse_from_str(text, pattern).ok()
}

/// `NaiveDate::and_hms_opt(0, 0, 0)`: the start of the day. It fails only on an invalid
/// hour, minute or second, so it succeeds; the date-time itself is not stated.
#[verifier::external_body]
pub(crate) fn start_of_day(date: &chrono::NaiveDate) -> (r: Option<chrono::NaiveDateTime>)
    ensures
        r is Some,
{
    date.and_hms_opt(0, 0, 0)
}

/// `Local.from_local_datetime(naive).earliest()` as seconds since the epoch: the wall
/// time read in the machine's zone, the earlier reading when a clock change makes it
/// ambiguous. It depends on the machine's zone, so nothing is promised of it.
#[verifier::external_body]
pub(crate) fn local_seconds(naive: &chrono::NaiveDateTime) -> (r: Option<i64>)
{
    chrono::Local.from_local_datetime(naive).earliest().map(|dt| dt.timestamp())
}

/// What `chrono` writes for the UTC instant `seconds` as RFC 3339 with milliseconds and
/// `Z`; `None` outside chrono's range.
pub uninterp spec fn utc_rfc3339_text(seconds: int) -> Option<Seq<char>>;

/// `DateTime::<Utc>::from_timestamp(seconds, 0)` written with
/// `to_rfc3339_opts(SecondsFormat::Millis, true)`. Named: it depends on `seconds` alone.
#[verifier::external_body]
pub(crate) fn utc_rfc3339_millis(seconds: i64) -> (r: Option<String>)
    ensures
        r matches Some(t) ==> utc_rfc3339_text(seconds as int) == Some(t@),
        r is None ==> utc_rfc3339_text(seconds as int) is None,
{
    chrono::DateTime::<chrono::Utc>::from_timestamp(seconds, 0)
        .map(|dt| dt.to_rfc3339_opts(chrono::SecondsFormat::Millis, true))
}

} // verus!
