//! Scalar value types: dates, times, date-times, durations and periods,
//! with their fixed-width decimal grammars and formatters.

use vstd::prelude::*;

use crate::errors::{ParserError, ParserErrorKind};
use crate::helpers::{
    copy_range, digit_val, digits_to_u32, digits_val, is_digit, lemma_digits_val_bound,
    lemma_pow10_monotone, pow10, spec_take_while_m_n, take_while_m_n,
};

verus! {

pub const UPPER_T: u8 = 84;

pub const UPPER_Z: u8 = 90;

pub const UPPER_P: u8 = 80;

pub const UPPER_W: u8 = 87;

pub const UPPER_D: u8 = 68;

pub const UPPER_H: u8 = 72;

pub const UPPER_M: u8 = 77;

pub const UPPER_S: u8 = 83;

// ---------------------------------------------------------------------------
// Bounded decimal integers
// ---------------------------------------------------------------------------

/// Read `min_d` to `max_d` digits as an integer and check it against the
/// inclusive range `lo..=hi`.
pub open spec fn spec_digit_int(min_d: int, max_d: int, lo: int, hi: int, s: Seq<u8>) -> Result<
    (Seq<u8>, int),
    ParserError,
> {
    match spec_take_while_m_n(min_d, max_d, s) {
        Err(e) => Err(e),
        Ok((rest, ds)) => {
            let v = digits_val(ds);
            if v < lo || v > hi {
                Err(ParserError { kind: ParserErrorKind::IntOutOfRange { min: lo as i64, max: hi as i64, value: v as i64 } })
            } else {
                Ok((rest, v))
            }
        },
    }
}

/// Read `min_d` to `max_d` digits as an integer in `lo..=hi`.
pub fn digit_int(min_d: usize, max_d: usize, lo: u32, hi: u32, input: &[u8]) -> (r: Result<
    (Vec<u8>, u32),
    ParserError,
>)
    requires
        0 < min_d <= max_d <= 9,
    ensures
        match spec_digit_int(min_d as int, max_d as int, lo as int, hi as int, input@) {
            Ok(p) => r matches Ok(q) && q.0@ == p.0 && q.1 == p.1,
            Err(e) => r matches Err(x) && x == e,
        },
{
    match take_while_m_n(min_d, max_d, input) {
        Err(e) => Err(e),
        Ok((rest, ds)) => {
            proof {
                crate::helpers::lemma_digit_run_len(input@, 0);
                assert(forall|i: int| 0 <= i < ds@.len() ==> is_digit(#[trigger] ds@[i]));
                assert(ds@.len() <= 9);
                lemma_digits_val_bound(ds@);
                lemma_pow10_monotone(ds@.len() as int, 9);
                assert(pow10(9) == 1000000000) by {
                    reveal_with_fuel(pow10, 11);
                }
            }
            let v = digits_to_u32(ds.as_slice());
            if v < lo || v > hi {
                Err(ParserError::out_of_range(lo as i64, hi as i64, v as i64))
            } else {
                Ok((rest, v))
            }
        },
    }
}

/// 1 or 2 digit integer in `min..=max` (both inclusive).
pub fn _1or2_digit_int(min: u8, max: u8, input: &[u8]) -> (r: Result<(Vec<u8>, u8), ParserError>)
    ensures
        match spec_digit_int(1, 2, min as int, max as int, input@) {
            Ok(p) => r matches Ok(q) && q.0@ == p.0 && q.1 == p.1,
            Err(e) => r matches Err(x) && x == e,
        },
{
    match digit_int(1, 2, min as u32, max as u32, input) {
        Err(e) => Err(e),
        Ok((rest, v)) => {
            proof {
                assert(v <= max);
            }
            Ok((rest, v as u8))
        },
    }
}

/// 1 to 3 digit integer in `min..=max` (both inclusive).
pub fn _1to3_digit_int(min: u16, max: u16, input: &[u8]) -> (r: Result<(Vec<u8>, u16), ParserError>)
    ensures
        match spec_digit_int(1, 3, min as int, max as int, input@) {
            Ok(p) => r matches Ok(q) && q.0@ == p.0 && q.1 == p.1,
            Err(e) => r matches Err(x) && x == e,
        },
{
    match digit_int(1, 3, min as u32, max as u32, input) {
        Err(e) => Err(e),
        Ok((rest, v)) => Ok((rest, v as u16)),
    }
}

/// 1 to 4 digit integer in `min..=max` (both inclusive).
pub fn _1to4_digit_int(min: u16, max: u16, input: &[u8]) -> (r: Result<(Vec<u8>, u16), ParserError>)
    ensures
        match spec_digit_int(1, 4, min as int, max as int, input@) {
            Ok(p) => r matches Ok(q) && q.0@ == p.0 && q.1 == p.1,
            Err(e) => r matches Err(x) && x == e,
        },
{
    match digit_int(1, 4, min as u32, max as u32, input) {
        Err(e) => Err(e),
        Ok((rest, v)) => Ok((rest, v as u16)),
    }
}

/// Exactly two digits read as an integer in `lo..=hi`.
pub open spec fn spec_2digit_int(lo: int, hi: int, s: Seq<u8>) -> Result<
    (Seq<u8>, int),
    ParserError,
> {
    spec_digit_int(2, 2, lo, hi, s)
}

// ---------------------------------------------------------------------------
// Fixed-width decimal rendering
// ---------------------------------------------------------------------------

/// Two-digit zero-padded decimal form of `v`.
pub open spec fn digit2(v: int) -> Seq<u8> {
    seq![(48 + v / 10) as u8, (48 + v % 10) as u8]
}

/// Four-digit zero-padded decimal form of `v`.
pub open spec fn digit4(v: int) -> Seq<u8> {
    seq![
        (48 + v / 1000) as u8,
        (48 + (v / 100) % 10) as u8,
        (48 + (v / 10) % 10) as u8,
        (48 + v % 10) as u8,
    ]
}

/// The value of a two-digit rendering is the value rendered.
pub proof fn lemma_digits_val_digit2(v: int)
    requires
        0 <= v < 100,
    ensures
        digits_val(digit2(v)) == v,
        forall|i: int| 0 <= i < 2 ==> is_digit(#[trigger] digit2(v)[i]),
{
    let s = digit2(v);
    let s1 = seq![s[0]];
    assert(s.drop_last() =~= s1);
    assert(s.last() == s[1]);
    assert(s1.drop_last() =~= Seq::<u8>::empty());
    assert(s1.last() == s[0]);
    assert(digits_val(Seq::<u8>::empty()) == 0);
    assert(digits_val(s1) == digit_val(s[0]));
    assert(digits_val(s) == digit_val(s[0]) * 10 + digit_val(s[1]));
    assert(v == (v / 10) * 10 + v % 10);
}

/// The value of a four-digit rendering is the value rendered.
pub proof fn lemma_digits_val_digit4(v: int)
    requires
        0 <= v < 10000,
    ensures
        digits_val(digit4(v)) == v,
        forall|i: int| 0 <= i < 4 ==> is_digit(#[trigger] digit4(v)[i]),
{
    let s = digit4(v);
    let s3 = seq![s[0], s[1], s[2]];
    let s2 = seq![s[0], s[1]];
    let s1 = seq![s[0]];
    assert(s.drop_last() =~= s3);
    assert(s.last() == s[3]);
    assert(s3.drop_last() =~= s2);
    assert(s3.last() == s[2]);
    assert(s2.drop_last() =~= s1);
    assert(s2.last() == s[1]);
    assert(s1.drop_last() =~= Seq::<u8>::empty());
    assert(s1.last() == s[0]);
    assert(digits_val(Seq::<u8>::empty()) == 0);
    assert(digits_val(s1) == digit_val(s[0]));
    assert(digits_val(s2) == digit_val(s[0]) * 10 + digit_val(s[1]));
    assert(digits_val(s3) == digits_val(s2) * 10 + digit_val(s[2]));
    assert(digits_val(s) == digits_val(s3) * 10 + digit_val(s[3]));
    assert(v == ((v / 1000) * 10 + (v / 100) % 10) * 100 + ((v / 10) % 10) * 10 + v % 10) by {
        assert(v / 100 == (v / 1000) * 10 + (v / 100) % 10);
        assert(v / 10 == (v / 100) * 10 + (v / 10) % 10);
        assert(v == (v / 10) * 10 + v % 10);
    }
}

/// Render `v` as two zero-padded decimal digits.
pub fn format2(v: u8) -> (r: Vec<u8>)
    requires
        v < 100,
    ensures
        r@ == digit2(v as int),
{
    let mut out: Vec<u8> = Vec::new();
    out.push(48 + v / 10);
    out.push(48 + v % 10);
    proof {
        assert(out@ =~= digit2(v as int));
    }
    out
}

/// Render `v` as four zero-padded decimal digits.
pub fn format4(v: u16) -> (r: Vec<u8>)
    requires
        v < 10000,
    ensures
        r@ == digit4(v as int),
{
    let mut out: Vec<u8> = Vec::new();
    out.push(48 + (v / 1000) as u8);
    out.push(48 + ((v / 100) % 10) as u8);
    out.push(48 + ((v / 10) % 10) as u8);
    out.push(48 + (v % 10) as u8);
    proof {
        assert(out@ =~= digit4(v as int));
    }
    out
}

// ---------------------------------------------------------------------------
// Date
// ---------------------------------------------------------------------------

/// The leap-year rule: every fourth year, with no century or 400-year
/// exception.
pub open spec fn leap_year(y: int) -> bool {
    y % 4 == 0
}

/// Days in month `m` of year `y`.
pub open spec fn max_day(y: int, m: int) -> int {
    if m == 2 {
        if leap_year(y) {
            29
        } else {
            28
        }
    } else if m == 4 || m == 6 || m == 9 || m == 11 {
        30
    } else {
        31
    }
}

/// Day-of-month validity depends only on the month and on the leap-year
/// rule: two years that agree on `year % 4 == 0` admit the same days.
pub proof fn lemma_day_validity_leap_only(y1: int, y2: int, m: int, d: int)
    requires
        leap_year(y1) == leap_year(y2),
    ensures
        (1 <= d <= max_day(y1, m)) == (1 <= d <= max_day(y2, m)),
{
}

/// A calendar date.
#[derive(Debug, Clone, Copy, PartialEq, Eq, PartialOrd, Ord, Hash, Structural)]
pub struct Date {
    /// Full year (0 to 9999 when well-formed).
    pub full_year: u16,
    /// Month (1 to 12).
    pub month: u8,
    /// Day of month: 1 to 28..=31 depending on month and year.
    pub day: u8,
}

impl Date {
    /// Ranges of the fields, day bounded by month and leap year.
    pub open spec fn wf(&self) -> bool {
        &&& self.full_year <= 9999
        &&& 1 <= self.month <= 12
        &&& 1 <= self.day <= max_day(self.full_year as int, self.month as int)
    }
}

/// Date grammar: 1-4 digit year, then 1-2 digit month (1..=12), then 1-2
/// digit day bounded by the month and the leap-year rule.
pub open spec fn spec_parse_date(s: Seq<u8>) -> Result<(Seq<u8>, Date), ParserError> {
    match spec_digit_int(1, 4, 0, 65535, s) {
        Err(e) => Err(e),
        Ok((r1, y)) => match spec_digit_int(1, 2, 1, 12, r1) {
            Err(e) => Err(e),
            Ok((r2, m)) => match spec_digit_int(1, 2, 1, max_day(y, m), r2) {
                Err(e) => Err(e),
                Ok((r3, d)) => Ok(
                    (r3, Date { full_year: y as u16, month: m as u8, day: d as u8 }),
                ),
            },
        },
    }
}

/// Zero-padded 4-digit year, 2-digit month and day.
pub open spec fn spec_format_date(d: Date) -> Seq<u8> {
    digit4(d.full_year as int) + digit2(d.month as int) + digit2(d.day as int)
}

/// A successfully parsed date is well-formed.
pub proof fn lemma_parse_date_wf(s: Seq<u8>)
    ensures
        (spec_parse_date(s) matches Ok(p) ==> p.1.wf()),
{
    if spec_parse_date(s) is Ok {
        match spec_take_while_m_n(1, 4, s) {
            Err(_) => {},
            Ok((r1, ds)) => {
                crate::helpers::lemma_digit_run_len(s, 0);
                lemma_digits_val_bound(ds);
                lemma_pow10_monotone(ds.len() as int, 4);
                assert(pow10(4) == 10000) by {
                    reveal_with_fuel(pow10, 6);
                }
            },
        }
    }
}

impl Date {
    /// Parse a date from the front of `input`; the unread rest is returned
    /// beside it.
    pub fn parse(input: &[u8]) -> (r: Result<(Vec<u8>, Date), ParserError>)
        ensures
            match spec_parse_date(input@) {
                Ok(p) => r matches Ok(q) && q.0@ == p.0 && q.1 == p.1 && p.1.wf(),
                Err(e) => r matches Err(x) && x == e,
            },
    {
        proof {
            lemma_parse_date_wf(input@);
        }
        let (r1, y) = match _1to4_digit_int(0, 65535, input) {
            Ok(v) => v,
            Err(e) => {
                return Err(e);
            },
        };
        let leap = y % 4 == 0;
        let (r2, m) = match _1or2_digit_int(1, 12, r1.as_slice()) {
            Ok(v) => v,
            Err(e) => {
                return Err(e);
            },
        };
        let max_day_v: u8 = if m == 2 {
            if leap {
                29
            } else {
                28
            }
        } else if m == 4 || m == 6 || m == 9 || m == 11 {
            30
        } else {
            31
        };
        proof {
            assert(max_day_v as int == max_day(y as int, m as int));
        }
        let (r3, d) = match _1or2_digit_int(1, max_day_v, r2.as_slice()) {
            Ok(v) => v,
            Err(e) => {
                return Err(e);
            },
        };
        Ok((r3, Date { full_year: y, month: m, day: d }))
    }

    /// Render as zero-padded 4-digit year, 2-digit month and day.
    pub fn format(&self) -> (r: Vec<u8>)
        requires
            self.wf(),
        ensures
            r@ == spec_format_date(*self),
    {
        let mut out = format4(self.full_year);
        let mut m = format2(self.month);
        let mut d = format2(self.day);
        out.append(&mut m);
        out.append(&mut d);
        out
    }
}

// ---------------------------------------------------------------------------
// Time
// ---------------------------------------------------------------------------

/// A time of day, with a leap-second tolerance on parse.
#[derive(Debug, Clone, Copy, PartialEq, Eq, PartialOrd, Ord, Hash, Structural)]
pub struct Time {
    pub hour: u8,
    pub minute: u8,
    pub second: u8,
    pub utc: bool,
}

impl Time {
    /// Field ranges; a second of 60 is admitted for leap seconds.
    pub open spec fn wf(&self) -> bool {
        self.hour <= 23 && self.minute <= 59 && self.second <= 60
    }
}

/// 2-digit hour, 0 to 23.
pub fn time_hour(input: &[u8]) -> (r: Result<(Vec<u8>, u8), ParserError>)
    ensures
        match spec_2digit_int(0, 23, input@) {
            Ok(p) => r matches Ok(q) && q.0@ == p.0 && q.1 == p.1,
            Err(e) => r matches Err(x) && x == e,
        },
{
    match digit_int(2, 2, 0, 23, input) {
        Err(e) => Err(e),
        Ok((rest, v)) => Ok((rest, v as u8)),
    }
}

/// 2-digit minute, 0 to 59.
pub fn time_minute(input: &[u8]) -> (r: Result<(Vec<u8>, u8), ParserError>)
    ensures
        match spec_2digit_int(0, 59, input@) {
            Ok(p) => r matches Ok(q) && q.0@ == p.0 && q.1 == p.1,
            Err(e) => r matches Err(x) && x == e,
        },
{
    match digit_int(2, 2, 0, 59, input) {
        Err(e) => Err(e),
        Ok((rest, v)) => Ok((rest, v as u8)),
    }
}

/// 2-digit second; 60 is tolerated for a leap second when `include_leap`.
pub fn time_second(include_leap: bool, input: &[u8]) -> (r: Result<(Vec<u8>, u8), ParserError>)
    ensures
        match spec_2digit_int(0, if include_leap { 60int } else { 59int }, input@) {
            Ok(p) => r matches Ok(q) && q.0@ == p.0 && q.1 == p.1,
            Err(e) => r matches Err(x) && x == e,
        },
{
    let hi: u32 = if include_leap {
        60
    } else {
        59
    };
    match digit_int(2, 2, 0, hi, input) {
        Err(e) => Err(e),
        Ok((rest, v)) => Ok((rest, v as u8)),
    }
}

/// Time grammar: 2-digit hour, minute and second (second up to 60 for a
/// leap second), with an optional trailing `Z` marking UTC.
pub open spec fn spec_parse_time(s: Seq<u8>) -> Result<(Seq<u8>, Time), ParserError> {
    match spec_2digit_int(0, 23, s) {
        Err(e) => Err(e),
        Ok((r1, h)) => match spec_2digit_int(0, 59, r1) {
            Err(e) => Err(e),
            Ok((r2, mi)) => match spec_2digit_int(0, 60, r2) {
                Err(e) => Err(e),
                Ok((r3, sec)) => {
                    if r3.len() > 0 && r3[0] == UPPER_Z {
                        Ok(
                            (
                                r3.skip(1),
                                Time {
                                    hour: h as u8,
                                    minute: mi as u8,
                                    second: sec as u8,
                                    utc: true,
                                },
                            ),
                        )
                    } else {
                        Ok(
                            (
                                r3,
                                Time {
                                    hour: h as u8,
                                    minute: mi as u8,
                                    second: sec as u8,
                                    utc: false,
                                },
                            ),
                        )
                    }
                },
            },
        },
    }
}

/// Zero-padded 2-digit hour, minute and second, with `Z` exactly when UTC.
pub open spec fn spec_format_time(t: Time) -> Seq<u8> {
    digit2(t.hour as int) + digit2(t.minute as int) + digit2(t.second as int) + (if t.utc {
        seq![UPPER_Z]
    } else {
        Seq::<u8>::empty()
    })
}

impl Time {
    /// Parse a time from the front of `input`.
    pub fn parse(input: &[u8]) -> (r: Result<(Vec<u8>, Time), ParserError>)
        ensures
            match spec_parse_time(input@) {
                Ok(p) => r matches Ok(q) && q.0@ == p.0 && q.1 == p.1 && p.1.wf(),
                Err(e) => r matches Err(x) && x == e,
            },
    {
        let (r1, hour) = match time_hour(input) {
            Ok(v) => v,
            Err(e) => {
                return Err(e);
            },
        };
        let (r2, minute) = match time_minute(r1.as_slice()) {
            Ok(v) => v,
            Err(e) => {
                return Err(e);
            },
        };
        let (r3, second) = match time_second(true, r2.as_slice()) {
            Ok(v) => v,
            Err(e) => {
                return Err(e);
            },
        };
        if r3.len() > 0 && r3[0] == UPPER_Z {
            let rest = copy_range(r3.as_slice(), 1, r3.len());
            Ok((rest, Time { hour, minute, second, utc: true }))
        } else {
            Ok((r3, Time { hour, minute, second, utc: false }))
        }
    }

    /// Render as zero-padded digits with `Z` exactly when UTC.
    pub fn format(&self) -> (r: Vec<u8>)
        requires
            self.wf(),
        ensures
            r@ == spec_format_time(*self),
    {
        let mut out = format2(self.hour);
        let mut mi = format2(self.minute);
        let mut sec = format2(self.second);
        out.append(&mut mi);
        out.append(&mut sec);
        if self.utc {
            out.push(UPPER_Z);
        }
        proof {
            assert(out@ =~= spec_format_time(*self));
        }
        out
    }
}

// ---------------------------------------------------------------------------
// DateTime and DateOrDateTime
// ---------------------------------------------------------------------------

/// A date with a time of day.
#[derive(Debug, Clone, Copy, PartialEq, Eq, PartialOrd, Ord, Hash, Structural)]
pub struct DateTime {
    pub date: Date,
    pub time: Time,
}

impl DateTime {
    /// Both halves in range.
    pub open spec fn wf(&self) -> bool {
        self.date.wf() && self.time.wf()
    }
}

/// Date-time grammar: a date, the literal `T`, then a time.
pub open spec fn spec_parse_datetime(s: Seq<u8>) -> Result<(Seq<u8>, DateTime), ParserError> {
    match spec_parse_date(s) {
        Err(e) => Err(e),
        Ok((r1, date)) => {
            if r1.len() > 0 && r1[0] == UPPER_T {
                match spec_parse_time(r1.skip(1)) {
                    Err(e) => Err(e),
                    Ok((r2, time)) => Ok((r2, DateTime { date, time })),
                }
            } else {
                Err(ParserError { kind: ParserErrorKind::MissingLiteral { lit: UPPER_T } })
            }
        },
    }
}

/// `{date}T{time}`.
pub open spec fn spec_format_datetime(dt: DateTime) -> Seq<u8> {
    spec_format_date(dt.date) + seq![UPPER_T] + spec_format_time(dt.time)
}

impl DateTime {
    /// Parse a date-time from the front of `input`.
    pub fn parse(input: &[u8]) -> (r: Result<(Vec<u8>, DateTime), ParserError>)
        ensures
            match spec_parse_datetime(input@) {
                Ok(p) => r matches Ok(q) && q.0@ == p.0 && q.1 == p.1 && p.1.wf(),
                Err(e) => r matches Err(x) && x == e,
            },
    {
        let (r1, date) = match Date::parse(input) {
            Ok(v) => v,
            Err(e) => {
                return Err(e);
            },
        };
        if !(r1.len() > 0 && r1[0] == UPPER_T) {
            return Err(ParserError::tag(UPPER_T));
        }
        let r2 = copy_range(r1.as_slice(), 1, r1.len());
        let (r3, time) = match Time::parse(r2.as_slice()) {
            Ok(v) => v,
            Err(e) => {
                return Err(e);
            },
        };
        Ok((r3, DateTime { date, time }))
    }

    /// Render as `{date}T{time}`.
    pub fn format(&self) -> (r: Vec<u8>)
        requires
            self.wf(),
        ensures
            r@ == spec_format_datetime(*self),
    {
        let mut out = self.date.format();
        out.push(UPPER_T);
        let mut t = self.time.format();
        out.append(&mut t);
        proof {
            assert(out@ =~= spec_format_datetime(*self));
        }
        out
    }
}

/// A date, or a date with a time. The derived order puts every plain date
/// before every date-time; it is not chronological across the two variants,
/// because a date-only value has no fixed instant.
#[derive(Debug, Clone, Copy, PartialEq, Eq, PartialOrd, Ord, Hash, Structural)]
pub enum DateOrDateTime {
    Date(Date),
    DateTime(DateTime),
}

impl DateOrDateTime {
    /// The carried value is in range.
    pub open spec fn wf(&self) -> bool {
        match self {
            DateOrDateTime::Date(d) => d.wf(),
            DateOrDateTime::DateTime(dt) => dt.wf(),
        }
    }
}

/// A date, optionally followed by `T` and a time when the `T` is present.
pub open spec fn spec_parse_date_or_datetime(s: Seq<u8>) -> Result<
    (Seq<u8>, DateOrDateTime),
    ParserError,
> {
    match spec_parse_date(s) {
        Err(e) => Err(e),
        Ok((r1, date)) => {
            if r1.len() > 0 && r1[0] == UPPER_T {
                match spec_parse_time(r1.skip(1)) {
                    Err(e) => Err(e),
                    Ok((r2, time)) => Ok((r2, DateOrDateTime::DateTime(DateTime { date, time }))),
                }
            } else {
                Ok((r1, DateOrDateTime::Date(date)))
            }
        },
    }
}

/// Delegates to whichever variant is held.
pub open spec fn spec_format_date_or_datetime(v: DateOrDateTime) -> Seq<u8> {
    match v {
        DateOrDateTime::Date(d) => spec_format_date(d),
        DateOrDateTime::DateTime(dt) => spec_format_datetime(dt),
    }
}

impl DateOrDateTime {
    /// Parse a date, and a time after it when a `T` follows the date.
    pub fn parse(input: &[u8]) -> (r: Result<(Vec<u8>, DateOrDateTime), ParserError>)
        ensures
            match spec_parse_date_or_datetime(input@) {
                Ok(p) => r matches Ok(q) && q.0@ == p.0 && q.1 == p.1 && p.1.wf(),
                Err(e) => r matches Err(x) && x == e,
            },
    {
        let (r1, date) = match Date::parse(input) {
            Ok(v) => v,
            Err(e) => {
                return Err(e);
            },
        };
        if r1.len() > 0 && r1[0] == UPPER_T {
            let r2 = copy_range(r1.as_slice(), 1, r1.len());
            let (r3, time) = match Time::parse(r2.as_slice()) {
                Ok(v) => v,
                Err(e) => {
                    return Err(e);
                },
            };
            Ok((r3, DateOrDateTime::DateTime(DateTime { date, time })))
        } else {
            Ok((r1, DateOrDateTime::Date(date)))
        }
    }

    /// Render whichever variant is held.
    pub fn format(&self) -> (r: Vec<u8>)
        requires
            self.wf(),
        ensures
            r@ == spec_format_date_or_datetime(*self),
    {
        match self {
            DateOrDateTime::Date(d) => d.format(),
            DateOrDateTime::DateTime(dt) => dt.format(),
        }
    }
}

// ---------------------------------------------------------------------------
// Decimal rendering of unsigned numbers
// ---------------------------------------------------------------------------

/// Decimal digits of `v`, most significant first, no leading zeros (the
/// value 0 renders as one digit).
pub open spec fn dec_digits(v: int) -> Seq<u8>
    decreases v,
{
    if v < 10 {
        seq![(48 + v) as u8]
    } else {
        dec_digits(v / 10).push((48 + v % 10) as u8)
    }
}

/// `dec_digits` renders only digits, at least one, and reading them back
/// gives the value.
pub proof fn lemma_dec_digits(v: int)
    requires
        0 <= v,
    ensures
        dec_digits(v).len() >= 1,
        forall|i: int| 0 <= i < dec_digits(v).len() ==> is_digit(#[trigger] dec_digits(v)[i]),
        digits_val(dec_digits(v)) == v,
    decreases v,
{
    if v < 10 {
        let s = dec_digits(v);
        assert(s.drop_last() =~= Seq::<u8>::empty());
        assert(s.last() == s[0]);
        assert(digits_val(Seq::<u8>::empty()) == 0);
        assert(digits_val(s) == digit_val(s[0]));
    } else {
        lemma_dec_digits(v / 10);
        let s = dec_digits(v);
        let p = dec_digits(v / 10);
        assert(s.drop_last() =~= p);
        assert(s.last() == (48 + v % 10) as u8);
        assert(digits_val(s) == digits_val(p) * 10 + (v % 10));
        assert(v == (v / 10) * 10 + v % 10);
        assert forall|i: int| 0 <= i < s.len() implies is_digit(#[trigger] s[i]) by {
            if i < p.len() {
                assert(s[i] == p[i]);
            }
        }
    }
}

/// Reading back a rendered number with anything non-numeric after it gives
/// the number and leaves exactly the rest.
pub proof fn lemma_parse_u32_of_digits(v: u32, suffix: Seq<u8>)
    requires
        suffix.len() == 0 || !is_digit(suffix[0]),
    ensures
        crate::helpers::spec_parse_u32(dec_digits(v as int) + suffix) == Ok::<
            Option<(Seq<u8>, u32)>,
            ParserError,
        >(Some((suffix, v))),
{
    lemma_dec_digits(v as int);
    let d = dec_digits(v as int);
    let s = d + suffix;
    assert forall|j: int| 0 <= j < d.len() implies is_digit(#[trigger] s[j]) by {
        assert(s[j] == d[j]);
    }
    if d.len() < s.len() {
        assert(s[d.len() as int] == suffix[0]);
    }
    crate::helpers::lemma_digit_run_len_from(s, 0, d.len() as int);
    assert(s.take(d.len() as int) =~= d);
    assert(s.skip(d.len() as int) =~= suffix);
}

/// Render `v` in decimal.
pub fn format_u32(v: u32) -> (r: Vec<u8>)
    ensures
        r@ == dec_digits(v as int),
    decreases v,
{
    if v < 10 {
        let mut out: Vec<u8> = Vec::new();
        out.push(48 + v as u8);
        proof {
            assert(out@ =~= dec_digits(v as int));
        }
        out
    } else {
        let mut out = format_u32(v / 10);
        out.push(48 + (v % 10) as u8);
        out
    }
}

// ---------------------------------------------------------------------------
// Duration
// ---------------------------------------------------------------------------

/// A signed duration.
#[derive(Debug, Clone, Copy, PartialEq, Eq, Structural)]
pub struct Duration {
    pub negative: bool,
    pub kind: DurationKind,
}

/// Either a number of weeks, or days with a time part.
#[derive(Debug, Clone, Copy, PartialEq, Eq, Structural)]
pub enum DurationKind {
    Weeks(u32),
    DateTime { days: u32, hours: u32, minutes: u32, seconds: u32 },
}

/// An optional leading sign: `-` makes the value negative, `+` and nothing
/// leave it positive.
pub open spec fn spec_opt_sign(s: Seq<u8>) -> (Seq<u8>, bool) {
    if s.len() > 0 && s[0] == crate::helpers::PLUS {
        (s.skip(1), false)
    } else if s.len() > 0 && s[0] == crate::helpers::HYPHEN {
        (s.skip(1), true)
    } else {
        (s, false)
    }
}

/// Check for a `+` or `-` at the start; the value is negative only on `-`.
pub fn opt_sign_is_negative(input: &[u8]) -> (r: (Vec<u8>, bool))
    ensures
        r.0@ == spec_opt_sign(input@).0,
        r.1 == spec_opt_sign(input@).1,
{
    if input.len() > 0 && input[0] == crate::helpers::PLUS {
        (copy_range(input, 1, input.len()), false)
    } else if input.len() > 0 && input[0] == crate::helpers::HYPHEN {
        (copy_range(input, 1, input.len()), true)
    } else {
        (copy_range(input, 0, input.len()), false)
    }
}

/// The optional seconds component after a time part: a number followed by
/// `S`; anything else leaves the input untouched and the component zero.
pub open spec fn spec_parse_dur_secs(s: Seq<u8>) -> Result<(Seq<u8>, u32), ParserError> {
    match crate::helpers::spec_parse_u32(s) {
        Err(e) => Err(e),
        Ok(None) => Ok((s, 0u32)),
        Ok(Some((i, num))) => {
            if i.len() > 0 && i[0] == UPPER_S {
                Ok((i.skip(1), num))
            } else {
                Ok((s, 0u32))
            }
        },
    }
}

/// The optional minutes (and then seconds) components: a number followed by
/// `M`, then the seconds rule; anything else leaves the input untouched.
pub open spec fn spec_parse_dur_mins_secs(s: Seq<u8>) -> Result<(Seq<u8>, u32, u32), ParserError> {
    match crate::helpers::spec_parse_u32(s) {
        Err(e) => Err(e),
        Ok(None) => Ok((s, 0u32, 0u32)),
        Ok(Some((i, num))) => {
            if i.len() > 0 && i[0] == crate::types::UPPER_M {
                match spec_parse_dur_secs(i.skip(1)) {
                    Err(e) => Err(e),
                    Ok((i2, secs)) => Ok((i2, num, secs)),
                }
            } else {
                Ok((s, 0u32, 0u32))
            }
        },
    }
}

/// The time part of a duration: the literal `T`, a number, then `H` (with
/// optional minutes and seconds after), `M` (with optional seconds) or `S`.
pub open spec fn spec_parse_dur_time(s: Seq<u8>, days: u32) -> Result<
    (Seq<u8>, DurationKind),
    ParserError,
> {
    if !(s.len() > 0 && s[0] == UPPER_T) {
        Err(ParserError { kind: ParserErrorKind::MissingLiteral { lit: UPPER_T } })
    } else {
        match crate::helpers::spec_parse_u32(s.skip(1)) {
            Err(e) => Err(e),
            Ok(None) => Err(ParserError { kind: ParserErrorKind::Digits { min_digits: 1, max_digits: 10 } }),
            Ok(Some((i, num))) => {
                if i.len() > 0 && i[0] == UPPER_H {
                    match spec_parse_dur_mins_secs(i.skip(1)) {
                        Err(e) => Err(e),
                        Ok((i2, minutes, seconds)) => Ok(
                            (
                                i2,
                                DurationKind::DateTime { days, hours: num, minutes, seconds },
                            ),
                        ),
                    }
                } else if i.len() > 0 && i[0] == UPPER_M {
                    match spec_parse_dur_secs(i.skip(1)) {
                        Err(e) => Err(e),
                        Ok((i2, seconds)) => Ok(
                            (
                                i2,
                                DurationKind::DateTime { days, hours: 0, minutes: num, seconds },
                            ),
                        ),
                    }
                } else if i.len() > 0 && i[0] == UPPER_S {
                    Ok(
                        (
                            i.skip(1),
                            DurationKind::DateTime { days, hours: 0, minutes: 0, seconds: num },
                        ),
                    )
                } else {
                    Err(ParserError { kind: ParserErrorKind::UnknownToken })
                }
            },
        }
    }
}

/// A duration kind: a number of weeks (`{n}W`), or a day count optionally
/// followed by a time part (`{n}D` and/or `T{n}H{n}M{n}S`, each component
/// optional but the order fixed; a bare day count has no time part).
pub open spec fn spec_parse_duration_kind(s: Seq<u8>) -> Result<
    (Seq<u8>, DurationKind),
    ParserError,
> {
    if !(s.len() > 0 && s[0] == UPPER_T) {
        match crate::helpers::spec_parse_u32(s) {
            Err(e) => Err(e),
            Ok(None) => Err(ParserError { kind: ParserErrorKind::Digits { min_digits: 1, max_digits: 10 } }),
            Ok(Some((i, num))) => {
                if i.len() > 0 && i[0] == UPPER_W {
                    Ok((i.skip(1), DurationKind::Weeks(num)))
                } else if i.len() > 0 && i[0] == UPPER_D {
                    let rest = i.skip(1);
                    if rest.len() > 0 && rest[0] == UPPER_T {
                        spec_parse_dur_time(rest, num)
                    } else {
                        Ok(
                            (
                                rest,
                                DurationKind::DateTime {
                                    days: num,
                                    hours: 0,
                                    minutes: 0,
                                    seconds: 0,
                                },
                            ),
                        )
                    }
                } else {
                    Err(ParserError { kind: ParserErrorKind::UnknownToken })
                }
            },
        }
    } else {
        spec_parse_dur_time(s, 0)
    }
}

/// A duration: an optional sign, the literal `P`, then the kind.
pub open spec fn spec_parse_duration(s: Seq<u8>) -> Result<(Seq<u8>, Duration), ParserError> {
    let (s1, negative) = spec_opt_sign(s);
    if !(s1.len() > 0 && s1[0] == UPPER_P) {
        Err(ParserError { kind: ParserErrorKind::MissingLiteral { lit: UPPER_P } })
    } else {
        match spec_parse_duration_kind(s1.skip(1)) {
            Err(e) => Err(e),
            Ok((r, kind)) => Ok((r, Duration { negative, kind })),
        }
    }
}

/// `-` for a negative duration, `P`, then the full canonical shape of the
/// kind: `{w}W`, or `{d}DT{h}H{m}M{s}S` with every component written.
pub open spec fn spec_format_duration_kind(k: DurationKind) -> Seq<u8> {
    match k {
        DurationKind::Weeks(w) => dec_digits(w as int).push(UPPER_W),
        DurationKind::DateTime { days, hours, minutes, seconds } => dec_digits(days as int).push(
            UPPER_D,
        ).push(UPPER_T) + dec_digits(hours as int).push(UPPER_H) + dec_digits(minutes as int).push(
            UPPER_M,
        ) + dec_digits(seconds as int).push(UPPER_S),
    }
}

/// `-` for a negative duration, `P`, then the canonical shape of the kind.
pub open spec fn spec_format_duration(d: Duration) -> Seq<u8> {
    (if d.negative {
        seq![crate::helpers::HYPHEN]
    } else {
        Seq::<u8>::empty()
    }) + seq![UPPER_P] + spec_format_duration_kind(d.kind)
}

/// The optional seconds component of a duration time part.
fn parse_dur_secs(input: &[u8]) -> (r: Result<(Vec<u8>, u32), ParserError>)
    ensures
        match spec_parse_dur_secs(input@) {
            Ok(p) => r matches Ok(q) && q.0@ == p.0 && q.1 == p.1,
            Err(e) => r matches Err(x) && x == e,
        },
{
    match crate::helpers::parse_u32(input) {
        Err(e) => Err(e),
        Ok(None) => Ok((copy_range(input, 0, input.len()), 0)),
        Ok(Some((i, num))) => {
            if i.len() > 0 && i[0] == UPPER_S {
                Ok((copy_range(i.as_slice(), 1, i.len()), num))
            } else {
                Ok((copy_range(input, 0, input.len()), 0))
            }
        },
    }
}

/// The optional minutes and seconds components of a duration time part.
fn parse_dur_mins_secs(input: &[u8]) -> (r: Result<(Vec<u8>, u32, u32), ParserError>)
    ensures
        match spec_parse_dur_mins_secs(input@) {
            Ok(p) => r matches Ok(q) && q.0@ == p.0 && q.1 == p.1 && q.2 == p.2,
            Err(e) => r matches Err(x) && x == e,
        },
{
    match crate::helpers::parse_u32(input) {
        Err(e) => Err(e),
        Ok(None) => Ok((copy_range(input, 0, input.len()), 0, 0)),
        Ok(Some((i, num))) => {
            if i.len() > 0 && i[0] == UPPER_M {
                let sub = copy_range(i.as_slice(), 1, i.len());
                match parse_dur_secs(sub.as_slice()) {
                    Err(e) => Err(e),
                    Ok((i2, secs)) => Ok((i2, num, secs)),
                }
            } else {
                Ok((copy_range(input, 0, input.len()), 0, 0))
            }
        },
    }
}

/// The time part of a duration, after the days (or directly after `P`).
fn parse_dur_time(input: &[u8], days: u32) -> (r: Result<(Vec<u8>, DurationKind), ParserError>)
    ensures
        match spec_parse_dur_time(input@, days) {
            Ok(p) => r matches Ok(q) && q.0@ == p.0 && q.1 == p.1,
            Err(e) => r matches Err(x) && x == e,
        },
{
    if !(input.len() > 0 && input[0] == UPPER_T) {
        return Err(ParserError::tag(UPPER_T));
    }
    let s1 = copy_range(input, 1, input.len());
    match crate::helpers::parse_u32(s1.as_slice()) {
        Err(e) => Err(e),
        Ok(None) => Err(ParserError::take_while_m_n(1, 10)),
        Ok(Some((i, num))) => {
            if i.len() > 0 && i[0] == UPPER_H {
                let sub = copy_range(i.as_slice(), 1, i.len());
                match parse_dur_mins_secs(sub.as_slice()) {
                    Err(e) => Err(e),
                    Ok((i2, minutes, seconds)) => Ok(
                        (i2, DurationKind::DateTime { days, hours: num, minutes, seconds }),
                    ),
                }
            } else if i.len() > 0 && i[0] == UPPER_M {
                let sub = copy_range(i.as_slice(), 1, i.len());
                match parse_dur_secs(sub.as_slice()) {
                    Err(e) => Err(e),
                    Ok((i2, seconds)) => Ok(
                        (i2, DurationKind::DateTime { days, hours: 0, minutes: num, seconds }),
                    ),
                }
            } else if i.len() > 0 && i[0] == UPPER_S {
                let rest = copy_range(i.as_slice(), 1, i.len());
                Ok((rest, DurationKind::DateTime { days, hours: 0, minutes: 0, seconds: num }))
            } else {
                Err(ParserError { kind: ParserErrorKind::UnknownToken })
            }
        },
    }
}

impl DurationKind {
    /// Parse the kind of a duration (after its `P`).
    pub fn parse(input: &[u8]) -> (r: Result<(Vec<u8>, DurationKind), ParserError>)
        ensures
            match spec_parse_duration_kind(input@) {
                Ok(p) => r matches Ok(q) && q.0@ == p.0 && q.1 == p.1,
                Err(e) => r matches Err(x) && x == e,
            },
    {
        if !(input.len() > 0 && input[0] == UPPER_T) {
            match crate::helpers::parse_u32(input) {
                Err(e) => Err(e),
                Ok(None) => Err(ParserError::take_while_m_n(1, 10)),
                Ok(Some((i, num))) => {
                    if i.len() > 0 && i[0] == UPPER_W {
                        let rest = copy_range(i.as_slice(), 1, i.len());
                        Ok((rest, DurationKind::Weeks(num)))
                    } else if i.len() > 0 && i[0] == UPPER_D {
                        let sub = copy_range(i.as_slice(), 1, i.len());
                        if sub.len() > 0 && sub.as_slice()[0] == UPPER_T {
                            parse_dur_time(sub.as_slice(), num)
                        } else {
                            Ok(
                                (
                                    sub,
                                    DurationKind::DateTime {
                                        days: num,
                                        hours: 0,
                                        minutes: 0,
                                        seconds: 0,
                                    },
                                ),
                            )
                        }
                    } else {
                        Err(ParserError { kind: ParserErrorKind::UnknownToken })
                    }
                },
            }
        } else {
            parse_dur_time(input, 0)
        }
    }
}

impl Duration {
    /// Parse a duration from the front of `input`.
    pub fn parse(input: &[u8]) -> (r: Result<(Vec<u8>, Duration), ParserError>)
        ensures
            match spec_parse_duration(input@) {
                Ok(p) => r matches Ok(q) && q.0@ == p.0 && q.1 == p.1,
                Err(e) => r matches Err(x) && x == e,
            },
    {
        let (s1, negative) = opt_sign_is_negative(input);
        if !(s1.len() > 0 && s1[0] == UPPER_P) {
            return Err(ParserError::tag(UPPER_P));
        }
        let s2 = copy_range(s1.as_slice(), 1, s1.len());
        match DurationKind::parse(s2.as_slice()) {
            Err(e) => Err(e),
            Ok((rest, kind)) => Ok((rest, Duration { negative, kind })),
        }
    }

    /// Render in the canonical full shape, mirroring the parsed components.
    pub fn format(&self) -> (r: Vec<u8>)
        ensures
            r@ == spec_format_duration(*self),
    {
        let mut out: Vec<u8> = Vec::new();
        if self.negative {
            out.push(crate::helpers::HYPHEN);
        }
        out.push(UPPER_P);
        match &self.kind {
            DurationKind::Weeks(w) => {
                let mut ws = format_u32(*w);
                out.append(&mut ws);
                out.push(UPPER_W);
            },
            DurationKind::DateTime { days, hours, minutes, seconds } => {
                let mut ds = format_u32(*days);
                out.append(&mut ds);
                out.push(UPPER_D);
                out.push(UPPER_T);
                let mut hs = format_u32(*hours);
                out.append(&mut hs);
                out.push(UPPER_H);
                let mut ms = format_u32(*minutes);
                out.append(&mut ms);
                out.push(UPPER_M);
                let mut ss = format_u32(*seconds);
                out.append(&mut ss);
                out.push(UPPER_S);
            },
        }
        proof {
            assert(out@ =~= spec_format_duration(*self));
        }
        out
    }
}

// ---------------------------------------------------------------------------
// Period
// ---------------------------------------------------------------------------

/// A period of time: an explicit start and end, or a start and a duration.
#[derive(Debug, Clone, Copy, PartialEq, Eq, Structural)]
pub enum Period {
    Explicit { start: DateTime, end: DateTime },
    Start { start: DateTime, duration: Duration },
}

/// Period grammar: a date-time, `/`, then either a duration (marked by its
/// `P`) or the explicit end date-time.
pub open spec fn spec_parse_period(s: Seq<u8>) -> Result<(Seq<u8>, Period), ParserError> {
    match spec_parse_datetime(s) {
        Err(e) => Err(e),
        Ok((r1, start)) => {
            if !(r1.len() > 0 && r1[0] == crate::helpers::SLASH) {
                Err(ParserError { kind: ParserErrorKind::MissingLiteral { lit: crate::helpers::SLASH } })
            } else {
                let r2 = r1.skip(1);
                if r2.len() > 0 && r2[0] == UPPER_P {
                    match spec_parse_duration(r2) {
                        Err(e) => Err(e),
                        Ok((r3, duration)) => Ok((r3, Period::Start { start, duration })),
                    }
                } else {
                    match spec_parse_datetime(r2) {
                        Err(e) => Err(e),
                        Ok((r3, end)) => Ok((r3, Period::Explicit { start, end })),
                    }
                }
            }
        },
    }
}

impl Period {
    /// Parse a period from the front of `input`.
    pub fn parse(input: &[u8]) -> (r: Result<(Vec<u8>, Period), ParserError>)
        ensures
            match spec_parse_period(input@) {
                Ok(p) => r matches Ok(q) && q.0@ == p.0 && q.1 == p.1,
                Err(e) => r matches Err(x) && x == e,
            },
    {
        let (r1, start) = match DateTime::parse(input) {
            Ok(v) => v,
            Err(e) => {
                return Err(e);
            },
        };
        if !(r1.len() > 0 && r1[0] == crate::helpers::SLASH) {
            return Err(ParserError::tag(crate::helpers::SLASH));
        }
        let r2 = copy_range(r1.as_slice(), 1, r1.len());
        if r2.len() > 0 && r2[0] == UPPER_P {
            match Duration::parse(r2.as_slice()) {
                Err(e) => Err(e),
                Ok((r3, duration)) => Ok((r3, Period::Start { start, duration })),
            }
        } else {
            match DateTime::parse(r2.as_slice()) {
                Err(e) => Err(e),
                Ok((r3, end)) => Ok((r3, Period::Explicit { start, end })),
            }
        }
    }
}

// ---------------------------------------------------------------------------
// Consumption bounds
// ---------------------------------------------------------------------------

/// A successful bounded-integer parse stays within its input and consumes
/// at least one byte.
pub proof fn lemma_digit_int_len(min_d: int, max_d: int, lo: int, hi: int, s: Seq<u8>)
    requires
        1 <= min_d <= max_d,
    ensures
        (spec_digit_int(min_d, max_d, lo, hi, s) matches Ok(p) ==> p.0.len() < s.len()),
{
    crate::helpers::lemma_digit_run_len(s, 0);
}

/// A successful date parse consumes at least one byte.
pub proof fn lemma_parse_date_progress(s: Seq<u8>)
    ensures
        (spec_parse_date(s) matches Ok(p) ==> p.0.len() < s.len()),
{
    lemma_digit_int_len(1, 4, 0, 65535, s);
    match spec_digit_int(1, 4, 0, 65535, s) {
        Err(_) => {},
        Ok((r1, y)) => {
            lemma_digit_int_len(1, 2, 1, 12, r1);
            match spec_digit_int(1, 2, 1, 12, r1) {
                Err(_) => {},
                Ok((r2, m)) => {
                    lemma_digit_int_len(1, 2, 1, max_day(y, m), r2);
                },
            }
        },
    }
}

/// A successful time parse stays within its input.
pub proof fn lemma_parse_time_len(s: Seq<u8>)
    ensures
        (spec_parse_time(s) matches Ok(p) ==> p.0.len() < s.len()),
{
    lemma_digit_int_len(2, 2, 0, 23, s);
    match spec_2digit_int(0, 23, s) {
        Err(_) => {},
        Ok((r1, _)) => {
            lemma_digit_int_len(2, 2, 0, 59, r1);
            match spec_2digit_int(0, 59, r1) {
                Err(_) => {},
                Ok((r2, _)) => {
                    lemma_digit_int_len(2, 2, 0, 60, r2);
                },
            }
        },
    }
}

/// A successful date-time parse consumes at least one byte.
pub proof fn lemma_parse_datetime_progress(s: Seq<u8>)
    ensures
        (spec_parse_datetime(s) matches Ok(p) ==> p.0.len() < s.len()),
{
    lemma_parse_date_progress(s);
    match spec_parse_date(s) {
        Err(_) => {},
        Ok((r1, _)) => {
            if r1.len() > 0 && r1[0] == UPPER_T {
                lemma_parse_time_len(r1.skip(1));
            }
        },
    }
}

// ---------------------------------------------------------------------------
// Format/parse round trips
// ---------------------------------------------------------------------------

/// A two-digit rendering followed by anything reads back as its value when
/// the value is in range: at most two digits are ever taken.
pub proof fn lemma_digit2_int(min_d: int, lo: int, hi: int, v: int, rest: Seq<u8>)
    requires
        1 <= min_d <= 2,
        0 <= v < 100,
        lo <= v <= hi,
    ensures
        spec_digit_int(min_d, 2, lo, hi, digit2(v) + rest) == Ok::<(Seq<u8>, int), ParserError>(
            (rest, v),
        ),
{
    lemma_digits_val_digit2(v);
    let d = digit2(v);
    let s = d + rest;
    assert forall|j: int| 0 <= j < 2 implies is_digit(#[trigger] s[j]) by {
        assert(s[j] == d[j]);
    }
    crate::helpers::lemma_digit_run_len_from(s, 0, 2);
    crate::helpers::lemma_digit_run_len(s, 0);
    assert(s.take(2) =~= d);
    assert(s.skip(2) =~= rest);
}

/// A four-digit rendering followed by anything reads back as its value when
/// the value is in range: at most four digits are ever taken.
pub proof fn lemma_digit4_int(lo: int, hi: int, v: int, rest: Seq<u8>)
    requires
        0 <= v < 10000,
        lo <= v <= hi,
    ensures
        spec_digit_int(1, 4, lo, hi, digit4(v) + rest) == Ok::<(Seq<u8>, int), ParserError>(
            (rest, v),
        ),
{
    lemma_digits_val_digit4(v);
    let d = digit4(v);
    let s = d + rest;
    assert forall|j: int| 0 <= j < 4 implies is_digit(#[trigger] s[j]) by {
        assert(s[j] == d[j]);
    }
    crate::helpers::lemma_digit_run_len_from(s, 0, 4);
    crate::helpers::lemma_digit_run_len(s, 0);
    assert(s.take(4) =~= d);
    assert(s.skip(4) =~= rest);
}

/// Format/parse round trip for dates: rendering a well-formed date and
/// parsing it back (with anything after it) gives the date back exactly.
pub proof fn lemma_date_round_trip(d: Date, suffix: Seq<u8>)
    requires
        d.wf(),
    ensures
        spec_parse_date(spec_format_date(d) + suffix) == Ok::<(Seq<u8>, Date), ParserError>(
            (suffix, d),
        ),
{
    let fy = digit4(d.full_year as int);
    let fm = digit2(d.month as int);
    let fd = digit2(d.day as int);
    let s = spec_format_date(d) + suffix;
    assert(s =~= fy + (fm + (fd + suffix)));
    lemma_digit4_int(0, 65535, d.full_year as int, fm + (fd + suffix));
    lemma_digit2_int(1, 1, 12, d.month as int, fd + suffix);
    lemma_digit2_int(1, 1, max_day(d.full_year as int, d.month as int), d.day as int, suffix);
}

/// Format/parse round trip for times. A non-UTC rendering must not be
/// followed by a stray `Z`, which would read back as the UTC mark.
pub proof fn lemma_time_round_trip(t: Time, suffix: Seq<u8>)
    requires
        t.wf(),
        !t.utc ==> (suffix.len() == 0 || suffix[0] != UPPER_Z),
    ensures
        spec_parse_time(spec_format_time(t) + suffix) == Ok::<(Seq<u8>, Time), ParserError>(
            (suffix, t),
        ),
{
    let fh = digit2(t.hour as int);
    let fm = digit2(t.minute as int);
    let fs = digit2(t.second as int);
    let zp = if t.utc {
        seq![UPPER_Z]
    } else {
        Seq::<u8>::empty()
    };
    let s = spec_format_time(t) + suffix;
    assert(s =~= fh + (fm + (fs + (zp + suffix))));
    lemma_digit2_int(2, 0, 23, t.hour as int, fm + (fs + (zp + suffix)));
    lemma_digit2_int(2, 0, 59, t.minute as int, fs + (zp + suffix));
    lemma_digit2_int(2, 0, 60, t.second as int, zp + suffix);
    if t.utc {
        assert((zp + suffix)[0] == UPPER_Z);
        assert((zp + suffix).skip(1) =~= suffix);
    } else {
        assert(zp + suffix =~= suffix);
    }
}

/// Format/parse round trip for date-times.
pub proof fn lemma_datetime_round_trip(dt: DateTime, suffix: Seq<u8>)
    requires
        dt.wf(),
        !dt.time.utc ==> (suffix.len() == 0 || suffix[0] != UPPER_Z),
    ensures
        spec_parse_datetime(spec_format_datetime(dt) + suffix) == Ok::<
            (Seq<u8>, DateTime),
            ParserError,
        >((suffix, dt)),
{
    let s = spec_format_datetime(dt) + suffix;
    let tail = seq![UPPER_T] + (spec_format_time(dt.time) + suffix);
    assert(s =~= spec_format_date(dt.date) + tail);
    lemma_date_round_trip(dt.date, tail);
    assert(tail[0] == UPPER_T);
    assert(tail.skip(1) =~= spec_format_time(dt.time) + suffix);
    lemma_time_round_trip(dt.time, suffix);
}

/// Format/parse round trip for date-or-date-time values. A date rendering
/// must not be followed by a stray `T` or digit, which would read back as a
/// time part or extend the day.
pub proof fn lemma_date_or_datetime_round_trip(v: DateOrDateTime, suffix: Seq<u8>)
    requires
        v.wf(),
        (v matches DateOrDateTime::Date(_)) ==> (suffix.len() == 0 || (suffix[0] != UPPER_T
            && !is_digit(suffix[0]))),
        (v matches DateOrDateTime::DateTime(dt) && !dt.time.utc) ==> (suffix.len() == 0
            || suffix[0] != UPPER_Z),
    ensures
        spec_parse_date_or_datetime(spec_format_date_or_datetime(v) + suffix) == Ok::<
            (Seq<u8>, DateOrDateTime),
            ParserError,
        >((suffix, v)),
{
    match v {
        DateOrDateTime::Date(d) => {
            lemma_date_round_trip(d, suffix);
        },
        DateOrDateTime::DateTime(dt) => {
            let s = spec_format_date_or_datetime(v) + suffix;
            let tail = seq![UPPER_T] + (spec_format_time(dt.time) + suffix);
            assert(s =~= spec_format_date(dt.date) + tail);
            lemma_date_round_trip(dt.date, tail);
            assert(tail[0] == UPPER_T);
            assert(tail.skip(1) =~= spec_format_time(dt.time) + suffix);
            lemma_time_round_trip(dt.time, suffix);
        },
    }
}

/// Round trip for the weeks form of a duration kind.
#[verifier::spinoff_prover]
proof fn lemma_duration_kind_weeks_round_trip(w: u32, suffix: Seq<u8>)
    ensures
        spec_parse_duration_kind(spec_format_duration_kind(DurationKind::Weeks(w)) + suffix)
            == Ok::<(Seq<u8>, DurationKind), ParserError>((suffix, DurationKind::Weeks(w))),
{
    let body = spec_format_duration_kind(DurationKind::Weeks(w)) + suffix;
    lemma_dec_digits(w as int);
    assert(body =~= dec_digits(w as int) + (seq![UPPER_W] + suffix));
    assert(body[0] == dec_digits(w as int)[0]);
    assert(is_digit(body[0]));
    lemma_parse_u32_of_digits(w, seq![UPPER_W] + suffix);
    assert((seq![UPPER_W] + suffix)[0] == UPPER_W);
    assert((seq![UPPER_W] + suffix).skip(1) =~= suffix);
}

/// Round trip for the days-and-time form of a duration kind.
#[verifier::rlimit(100)]
#[verifier::spinoff_prover]
proof fn lemma_duration_kind_time_round_trip(
    days: u32,
    hours: u32,
    minutes: u32,
    seconds: u32,
    suffix: Seq<u8>,
)
    ensures
        spec_parse_duration_kind(
            spec_format_duration_kind(DurationKind::DateTime { days, hours, minutes, seconds })
                + suffix,
        ) == Ok::<(Seq<u8>, DurationKind), ParserError>(
            (suffix, DurationKind::DateTime { days, hours, minutes, seconds }),
        ),
{
    let k = DurationKind::DateTime { days, hours, minutes, seconds };
    let body = spec_format_duration_kind(k) + suffix;
    let f_s = dec_digits(seconds as int) + (seq![UPPER_S] + suffix);
    let f_m = dec_digits(minutes as int) + (seq![UPPER_M] + f_s);
    let f_h = dec_digits(hours as int) + (seq![UPPER_H] + f_m);
    let f_t = seq![UPPER_T] + f_h;
    let f_d = dec_digits(days as int) + (seq![UPPER_D] + f_t);
    lemma_dec_digits(days as int);
    lemma_dec_digits(hours as int);
    lemma_dec_digits(minutes as int);
    lemma_dec_digits(seconds as int);
    assert(body =~= f_d);
    // days, then `D`
    assert(f_d[0] == dec_digits(days as int)[0]);
    assert(is_digit(f_d[0]));
    lemma_parse_u32_of_digits(days, seq![UPPER_D] + f_t);
    assert((seq![UPPER_D] + f_t)[0] == UPPER_D);
    assert((seq![UPPER_D] + f_t).skip(1) =~= f_t);
    // the time part: `T`, hours and `H`
    assert(f_t[0] == UPPER_T);
    assert(f_t.skip(1) =~= f_h);
    lemma_parse_u32_of_digits(hours, seq![UPPER_H] + f_m);
    assert((seq![UPPER_H] + f_m)[0] == UPPER_H);
    assert((seq![UPPER_H] + f_m).skip(1) =~= f_m);
    // minutes and `M`
    lemma_parse_u32_of_digits(minutes, seq![UPPER_M] + f_s);
    assert((seq![UPPER_M] + f_s)[0] == UPPER_M);
    assert((seq![UPPER_M] + f_s).skip(1) =~= f_s);
    // seconds and `S`
    lemma_parse_u32_of_digits(seconds, seq![UPPER_S] + suffix);
    assert((seq![UPPER_S] + suffix)[0] == UPPER_S);
    assert((seq![UPPER_S] + suffix).skip(1) =~= suffix);
}

/// Format/parse round trip for durations: the canonical rendering parses
/// back to the same sign and components, with anything after it untouched.
#[verifier::spinoff_prover]
pub proof fn lemma_duration_round_trip(d: Duration, suffix: Seq<u8>)
    ensures
        spec_parse_duration(spec_format_duration(d) + suffix) == Ok::<
            (Seq<u8>, Duration),
            ParserError,
        >((suffix, d)),
{
    let s = spec_format_duration(d) + suffix;
    let body = spec_format_duration_kind(d.kind) + suffix;
    match d.kind {
        DurationKind::Weeks(w) => {
            lemma_dec_digits(w as int);
            assert(spec_format_duration_kind(d.kind)[0] == dec_digits(w as int)[0]);
            lemma_duration_kind_weeks_round_trip(w, suffix);
        },
        DurationKind::DateTime { days, hours, minutes, seconds } => {
            lemma_dec_digits(days as int);
            assert(spec_format_duration_kind(d.kind)[0] == dec_digits(days as int)[0]);
            lemma_duration_kind_time_round_trip(days, hours, minutes, seconds, suffix);
        },
    }
    assert(is_digit(spec_format_duration_kind(d.kind)[0]));
    if d.negative {
        assert(s[0] == crate::helpers::HYPHEN);
        assert(s.skip(1) =~= seq![UPPER_P] + body);
        assert((seq![UPPER_P] + body)[0] == UPPER_P);
        assert((seq![UPPER_P] + body).skip(1) =~= body);
    } else {
        assert(s =~= seq![UPPER_P] + body);
        assert(s[0] == UPPER_P);
        assert(!(s[0] == crate::helpers::PLUS) && !(s[0] == crate::helpers::HYPHEN));
        assert(s.skip(1) =~= body);
    }
}

} // verus!
