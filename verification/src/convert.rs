//! Tolerant time-of-day and date parsing.
//!
//! Input strings are tried against a fixed, ordered list of format
//! patterns; the first pattern that parses wins, so ambiguous inputs are
//! resolved deterministically. The per-pattern parsing itself is done by
//! chrono behind trusted wrappers.

use vstd::prelude::*;
use chrono::{Datelike, Timelike};

verus! {

/// Time of day with minute precision (seconds are never used here).
#[derive(Clone, Copy, Debug, PartialEq, Eq, Structural)]
pub struct TimeOfDay {
    pub hour: u32,
    pub minute: u32,
}

impl TimeOfDay {
    pub open spec fn wf(self) -> bool {
        self.hour < 24 && self.minute < 60
    }

    /// Strictly-earlier ordering on times of one day.
    pub open spec fn spec_before(self, other: TimeOfDay) -> bool {
        self.hour < other.hour || (self.hour == other.hour && self.minute < other.minute)
    }

    pub fn new(hour: u32, minute: u32) -> (t: TimeOfDay)
        requires
            hour < 24,
            minute < 60,
        ensures
            t == (TimeOfDay { hour, minute }),
    {
        TimeOfDay { hour, minute }
    }

    pub fn is_before(&self, other: &TimeOfDay) -> (r: bool)
        ensures
            r == self.spec_before(*other),
    {
        self.hour < other.hour || (self.hour == other.hour && self.minute < other.minute)
    }

    pub fn is_midnight(&self) -> (r: bool)
        ensures
            r == (self.hour == 0 && self.minute == 0),
    {
        self.hour == 0 && self.minute == 0
    }

    /// The external application only accepts minutes on a five-minute grid.
    pub fn minute_on_grid(&self) -> (r: bool)
        ensures
            r == (self.minute % 5 == 0),
    {
        self.minute % 5 == 0
    }
}

/// Naive calendar date.
#[derive(Clone, Copy, Debug, PartialEq, Eq, Structural)]
pub struct DateYmd {
    pub year: i32,
    pub month: u32,
    pub day: u32,
}

impl DateYmd {
    pub open spec fn wf(self) -> bool {
        1 <= self.month <= 12 && 1 <= self.day <= 31
    }
}

/// What `chrono::NaiveTime::parse_from_str` returns for a string and a
/// format pattern, as an (hour, minute) pair; the result depends on the two
/// arguments alone.
pub uninterp spec fn chrono_time_parse(s: Seq<char>, fmt: Seq<char>) -> Option<(u32, u32)>;

/// What `chrono::NaiveDate::parse_from_str` returns for a string and a
/// format pattern, as a (year, month, day) triple; the result depends on
/// the two arguments alone.
pub uninterp spec fn chrono_date_parse(s: Seq<char>, fmt: Seq<char>) -> Option<(i32, u32, u32)>;

#[verifier::external_type_specification]
#[verifier::external_body]
pub struct ExParseError(chrono::format::ParseError);

/// Relies on `chrono::NaiveTime::parse_from_str`: parses one string against
/// one format pattern; `Timelike::hour` is 0-23 and `Timelike::minute` is
/// 0-59 on any parsed time.
#[verifier::external_body]
fn parse_time_fmt(s: &str, fmt: &str) -> (r: Result<TimeOfDay, chrono::format::ParseError>)
    ensures
        match r {
            Ok(t) => chrono_time_parse(s@, fmt@) == Some((t.hour, t.minute)) && t.wf(),
            Err(_) => chrono_time_parse(s@, fmt@) is None,
        },
{
    match chrono::NaiveTime::parse_from_str(s, fmt) {
        Ok(t) => Ok(TimeOfDay { hour: t.hour(), minute: t.minute() }),
        Err(e) => Err(e),
    }
}

/// Relies on `chrono::NaiveDate::parse_from_str`: parses one string against
/// one format pattern; `Datelike::month` is 1-12 and `Datelike::day` is
/// 1-31 on any parsed date.
#[verifier::external_body]
fn parse_date_fmt(s: &str, fmt: &str) -> (r: Result<DateYmd, chrono::format::ParseError>)
    ensures
        match r {
            Ok(d) => chrono_date_parse(s@, fmt@) == Some((d.year, d.month, d.day)) && d.wf(),
            Err(_) => chrono_date_parse(s@, fmt@) is None,
        },
{
    match chrono::NaiveDate::parse_from_str(s, fmt) {
        Ok(d) => Ok(DateYmd { year: d.year(), month: d.month(), day: d.day() }),
        Err(e) => Err(e),
    }
}

/// The accepted time patterns, canonical 24-hour form first, then 12-hour
/// variants with AM/PM in both cases, with and without a leading zero.
pub open spec fn time_formats() -> Seq<Seq<char>> {
    seq!["%H:%M"@, "%k:%M"@, "%I:%M%P"@, "%I:%M%p"@, "%l:%M%P"@, "%l:%M%p"@]
}

/// The accepted date patterns: day-month-year with a full month name (two
/// orderings), ISO 8601, and numeric day/month/year.
pub open spec fn date_formats() -> Seq<Seq<char>> {
    seq!["%d %B %Y"@, "%e %B %Y"@, "%B %d %Y"@, "%B %e %Y"@, "%F"@, "%d/%m/%Y"@]
}

/// Result of the first pattern at index `i` or later in `time_formats()`
/// that parses `s`.
pub open spec fn first_time_match_from(s: Seq<char>, i: int) -> Option<(u32, u32)>
    decreases time_formats().len() - i,
{
    if i < 0 || i >= time_formats().len() {
        None
    } else {
        match chrono_time_parse(s, time_formats()[i]) {
            Some(t) => Some(t),
            None => first_time_match_from(s, i + 1),
        }
    }
}

/// Result of the first pattern at index `i` or later in `date_formats()`
/// that parses `s`.
pub open spec fn first_date_match_from(s: Seq<char>, i: int) -> Option<(i32, u32, u32)>
    decreases date_formats().len() - i,
{
    if i < 0 || i >= date_formats().len() {
        None
    } else {
        match chrono_date_parse(s, date_formats()[i]) {
            Some(d) => Some(d),
            None => first_date_match_from(s, i + 1),
        }
    }
}

/// Parses a time of day, trying each accepted pattern in order and
/// returning the first success; on total failure, returns the error from
/// re-attempting the first (canonical) pattern, so error values are stable.
pub fn str_to_time(s: &str) -> (r: Result<TimeOfDay, chrono::format::ParseError>)
    ensures
        match r {
            Ok(t) => first_time_match_from(s@, 0) == Some((t.hour, t.minute)) && t.wf(),
            Err(_) => first_time_match_from(s@, 0) is None,
        },
{
    proof {
        reveal_with_fuel(first_time_match_from, 7);
    }
    if let Ok(t) = parse_time_fmt(s, "%H:%M") {
        return Ok(t);
    }
    if let Ok(t) = parse_time_fmt(s, "%k:%M") {
        return Ok(t);
    }
    if let Ok(t) = parse_time_fmt(s, "%I:%M%P") {
        return Ok(t);
    }
    if let Ok(t) = parse_time_fmt(s, "%I:%M%p") {
        return Ok(t);
    }
    if let Ok(t) = parse_time_fmt(s, "%l:%M%P") {
        return Ok(t);
    }
    if let Ok(t) = parse_time_fmt(s, "%l:%M%p") {
        return Ok(t);
    }
    parse_time_fmt(s, "%H:%M")
}

/// Parses a date, trying each accepted pattern in order and returning the
/// first success; on total failure, returns the error from re-attempting
/// the first (canonical) pattern.
pub fn str_to_date(s: &str) -> (r: Result<DateYmd, chrono::format::ParseError>)
    ensures
        match r {
            Ok(d) => first_date_match_from(s@, 0) == Some((d.year, d.month, d.day)) && d.wf(),
            Err(_) => first_date_match_from(s@, 0) is None,
        },
{
    proof {
        reveal_with_fuel(first_date_match_from, 7);
    }
    if let Ok(d) = parse_date_fmt(s, "%d %B %Y") {
        return Ok(d);
    }
    if let Ok(d) = parse_date_fmt(s, "%e %B %Y") {
        return Ok(d);
    }
    if let Ok(d) = parse_date_fmt(s, "%B %d %Y") {
        return Ok(d);
    }
    if let Ok(d) = parse_date_fmt(s, "%B %e %Y") {
        return Ok(d);
    }
    if let Ok(d) = parse_date_fmt(s, "%F") {
        return Ok(d);
    }
    if let Ok(d) = parse_date_fmt(s, "%d/%m/%Y") {
        return Ok(d);
    }
    parse_date_fmt(s, "%d %B %Y")
}

} // verus!
