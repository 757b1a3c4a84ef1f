//! Naive date-times as whole seconds since 1970-01-01T00:00:00, with the calendar work done
//! by `chrono`.
use vstd::prelude::*;
use crate::text::dec_nat;
use chrono::{DateTime, Datelike, NaiveDate, NaiveTime, Timelike, Utc};

verus! {

/// Seconds that `chrono` can represent as a date-time (inside its ±262,000-year range),
/// with room for a nine-hour shift either way.
pub open spec fn valid_time(secs: int) -> bool {
    -8_334_000_000_000 <= secs && secs <= 8_210_000_000_000
}

/// Korea Standard Time is UTC+9.
pub const KST_OFFSET_SECS: i64 = 32400;

/// Seconds in a day.
pub const SECS_PER_DAY: i64 = 86400;

/// The decimal digits of `n`, zero-padded on the left to at least `w` characters.
pub open spec fn padded(n: nat, w: nat) -> Seq<char> {
    let d = dec_nat(n);
    if d.len() < w {
        Seq::new((w - d.len()) as nat, |i: int| '0') + d
    } else {
        d
    }
}

/// A year as `chrono` writes it (`%Y`, and in `Display`): four digits for years 0 to 9999,
/// otherwise a sign and at least four digits.
pub open spec fn year_text(y: int) -> Seq<char> {
    if 0 <= y && y <= 9999 {
        padded(y as nat, 4)
    } else if y < 0 {
        seq!['-'] + padded((-y) as nat, 4)
    } else {
        seq!['+'] + padded(y as nat, 4)
    }
}

/// `YYYY-MM-DD` of calendar fields.
pub open spec fn date_text(c: (i32, u32, u32, u32, u32, u32)) -> Seq<char> {
    year_text(c.0 as int) + seq!['-'] + padded(c.1 as nat, 2) + seq!['-'] + padded(c.2 as nat, 2)
}

/// `HH:MM` of calendar fields.
pub open spec fn hm_text(c: (i32, u32, u32, u32, u32, u32)) -> Seq<char> {
    padded(c.3 as nat, 2) + seq![':'] + padded(c.4 as nat, 2)
}

/// `HH:MM:SS` of calendar fields.
pub open spec fn hms_text(c: (i32, u32, u32, u32, u32, u32)) -> Seq<char> {
    hm_text(c) + seq![':'] + padded(c.5 as nat, 2)
}

/// The calendar fields `chrono` gives: a month, a day of the month, and a time of day
/// without leap seconds.
pub open spec fn civil_in_range(c: (i32, u32, u32, u32, u32, u32)) -> bool {
    1 <= c.1 <= 12 && 1 <= c.2 <= 31 && c.3 < 24 && c.4 < 60 && c.5 < 60
}

/// `%Y-%m-%d` of the date-time at `secs`.
pub open spec fn spec_format_date(secs: int) -> Seq<char> {
    date_text(spec_civil(secs))
}

/// `%H:%M` of the date-time at `secs`.
pub open spec fn spec_format_hm(secs: int) -> Seq<char> {
    hm_text(spec_civil(secs))
}

/// `%Y-%m-%dT%H:%M:%S` of the date-time at `secs`.
pub open spec fn spec_format_iso(secs: int) -> Seq<char> {
    date_text(spec_civil(secs)) + seq!['T'] + hms_text(spec_civil(secs))
}

/// `NaiveDateTime`'s `Display` (`%Y-%m-%d %H:%M:%S`, no fraction for whole seconds) of the
/// date-time at `secs`.
pub open spec fn spec_format_display(secs: int) -> Seq<char> {
    date_text(spec_civil(secs)) + seq![' '] + hms_text(spec_civil(secs))
}

/// Calendar year of the date-time at `secs`.
pub open spec fn spec_year_of(secs: int) -> int {
    spec_civil(secs).0 as int
}

/// First second of the calendar month that contains `secs`: back by the days since the
/// first of the month and the time of day.
pub open spec fn spec_month_start(secs: int) -> int {
    let c = spec_civil(secs);
    secs - ((c.2 - 1) * 86400 + c.3 * 3600 + c.4 * 60 + c.5)
}

/// `(year, month, day)` of a date as `chrono` parses it with `%Y-%m-%d`, or `None`.
pub uninterp spec fn spec_parse_date(s: Seq<char>) -> Option<(i32, u32, u32)>;

/// `(hour, minute)` of a time as `chrono` parses it with `%H:%M`, or `None`.
pub uninterp spec fn spec_parse_hm(s: Seq<char>) -> Option<(u32, u32)>;

/// `(year, month, day, hour, minute, second)` of the date-time at `secs`.
pub uninterp spec fn spec_civil(secs: int) -> (i32, u32, u32, u32, u32, u32);

/// Formats the date with `chrono`'s `%Y-%m-%d`: the calendar fields of `civil`, written out
/// as `date_text` says.
#[verifier::external_body]
pub fn format_date(secs: i64) -> (r: String)
    requires
        valid_time(secs as int),
    ensures
        r@ == spec_format_date(secs as int),
{
    DateTime::from_timestamp(secs, 0).unwrap().naive_utc().format("%Y-%m-%d").to_string()
}

/// Formats the time of day with `chrono`'s `%H:%M`.
#[verifier::external_body]
pub fn format_hm(secs: i64) -> (r: String)
    requires
        valid_time(secs as int),
    ensures
        r@ == spec_format_hm(secs as int),
{
    DateTime::from_timestamp(secs, 0).unwrap().naive_utc().format("%H:%M").to_string()
}

/// Formats with `chrono`'s `%Y-%m-%dT%H:%M:%S`.
#[verifier::external_body]
pub fn format_iso(secs: i64) -> (r: String)
    requires
        valid_time(secs as int),
    ensures
        r@ == spec_format_iso(secs as int),
{
    DateTime::from_timestamp(secs, 0).unwrap().naive_utc().format("%Y-%m-%dT%H:%M:%S").to_string()
}

/// `NaiveDateTime::to_string`.
#[verifier::external_body]
pub fn format_display(secs: i64) -> (r: String)
    requires
        valid_time(secs as int),
    ensures
        r@ == spec_format_display(secs as int),
{
    DateTime::from_timestamp(secs, 0).unwrap().naive_utc().to_string()
}

/// The calendar year of the date-time, as read by `civil`.
pub fn year_of(secs: i64) -> (r: i32)
    requires
        valid_time(secs as int),
    ensures
        r as int == spec_year_of(secs as int),
{
    civil(secs).0
}

/// Midnight of the first day of the month of the date-time: back from `secs` by the days
/// since the first of the month and by the time of day, as read by `civil`. It never lies
/// after `secs` and is at most 31 days before it.
pub fn month_start(secs: i64) -> (r: i64)
    requires
        valid_time(secs as int),
    ensures
        r as int == spec_month_start(secs as int),
        secs - 31 * 86400 <= r <= secs,
{
    let c = civil(secs);
    let back: i64 = (c.2 as i64 - 1) * 86400 + c.3 as i64 * 3600 + c.4 as i64 * 60 + c.5 as i64;
    secs - back
}

/// `NaiveDate::parse_from_str(s, "%Y-%m-%d")`, as `(year, month, day)`.
#[verifier::external_body]
pub fn parse_date(s: &str) -> (r: Option<(i32, u32, u32)>)
    ensures
        r == spec_parse_date(s@),
{
    match NaiveDate::parse_from_str(s, "%Y-%m-%d") {
        Ok(d) => Some((d.year(), d.month(), d.day())),
        Err(_) => None,
    }
}

/// `NaiveTime::parse_from_str(s, "%H:%M")`, as `(hour, minute)`.
#[verifier::external_body]
pub fn parse_hm(s: &str) -> (r: Option<(u32, u32)>)
    ensures
        r == spec_parse_hm(s@),
{
    match NaiveTime::parse_from_str(s, "%H:%M") {
        Ok(t) => Some((t.hour(), t.minute())),
        Err(_) => None,
    }
}

/// The calendar fields of the date-time at `secs`.
#[verifier::external_body]
pub fn civil(secs: i64) -> (r: (i32, u32, u32, u32, u32, u32))
    requires
        valid_time(secs as int),
    ensures
        r == spec_civil(secs as int),
        civil_in_range(r),
{
    let dt = DateTime::from_timestamp(secs, 0).unwrap().naive_utc();
    (dt.year(), dt.month(), dt.day(), dt.hour(), dt.minute(), dt.second())
}

/// The current time, `Utc::now().timestamp()`, in whole seconds. It comes from the clock, so
/// nothing is promised of it.
#[verifier::external_body]
pub fn now_utc_secs() -> (r: i64) {
    Utc::now().timestamp()
}

/// `valid_time` as a check.
pub fn in_time_range(secs: i64) -> (r: bool)
    ensures
        r == valid_time(secs as int),
{
    -8_334_000_000_000 <= secs && secs <= 8_210_000_000_000
}

} // verus!
