//! The recurrence-rule grammar: a frequency, a termination (until a date or
//! for a count, else forever), an interval, ten independent "by" filter
//! lists and a week start, given as `;`-separated `KEY=value` pairs.

use vstd::prelude::*;

use crate::errors::{ParserError, ParserErrorKind, RecurPart};
use crate::helpers::{
    copy_range, eq_bytes, spec_split_once, spec_try_split_once, split_once, try_split_once,
    COMMA, EQUALS, HYPHEN, PLUS, SEMI,
};
use crate::keywords::{
    kw_byday, kw_byhour, kw_byminute, kw_bymonth, kw_bymonthday, kw_bysecond, kw_bysetpos,
    kw_byweekno, kw_byyearday, kw_count, kw_daily, kw_fr, kw_freq_eq, kw_hourly, kw_interval,
    kw_minutely, kw_mo, kw_monthly, kw_sa, kw_secondly, kw_su, kw_th, kw_tu, kw_until, kw_we,
    kw_weekly, kw_wkst, kw_yearly, lit_byday, lit_byhour, lit_byminute, lit_bymonth,
    lit_bymonthday, lit_bysecond, lit_bysetpos, lit_byweekno, lit_byyearday, lit_count, lit_daily,
    lit_fr, lit_freq_eq, lit_hourly, lit_interval, lit_minutely, lit_mo, lit_monthly, lit_sa,
    lit_secondly, lit_su, lit_th, lit_tu, lit_until, lit_we, lit_weekly, lit_wkst, lit_yearly,
};
use crate::types::{
    digit_int, opt_sign_is_negative, spec_digit_int, spec_opt_sign, spec_parse_date_or_datetime,
    DateOrDateTime,
};
use crate::vec_one::VecOne;

verus! {

/// How often the rule repeats.
#[derive(Debug, Clone, Copy, PartialEq, Eq, PartialOrd, Ord, Hash, Structural)]
pub enum Freq {
    Secondly,
    Minutely,
    Hourly,
    Daily,
    Weekly,
    Monthly,
    Yearly,
}

/// One of the seven frequency tokens, or an unknown-token error.
pub open spec fn spec_parse_freq(s: Seq<u8>) -> Result<Freq, ParserError> {
    if s == kw_secondly() {
        Ok(Freq::Secondly)
    } else if s == kw_minutely() {
        Ok(Freq::Minutely)
    } else if s == kw_hourly() {
        Ok(Freq::Hourly)
    } else if s == kw_daily() {
        Ok(Freq::Daily)
    } else if s == kw_weekly() {
        Ok(Freq::Weekly)
    } else if s == kw_monthly() {
        Ok(Freq::Monthly)
    } else if s == kw_yearly() {
        Ok(Freq::Yearly)
    } else {
        Err(ParserError { kind: ParserErrorKind::UnknownToken })
    }
}

impl Freq {
    /// Parse one of the seven frequency tokens.
    pub fn parse(input: &[u8]) -> (r: Result<Freq, ParserError>)
        ensures
            r == spec_parse_freq(input@),
    {
        if eq_bytes(input, lit_secondly().as_slice()) {
            Ok(Freq::Secondly)
        } else if eq_bytes(input, lit_minutely().as_slice()) {
            Ok(Freq::Minutely)
        } else if eq_bytes(input, lit_hourly().as_slice()) {
            Ok(Freq::Hourly)
        } else if eq_bytes(input, lit_daily().as_slice()) {
            Ok(Freq::Daily)
        } else if eq_bytes(input, lit_weekly().as_slice()) {
            Ok(Freq::Weekly)
        } else if eq_bytes(input, lit_monthly().as_slice()) {
            Ok(Freq::Monthly)
        } else if eq_bytes(input, lit_yearly().as_slice()) {
            Ok(Freq::Yearly)
        } else {
            Err(ParserError { kind: ParserErrorKind::UnknownToken })
        }
    }
}

/// When the repetition stops.
#[derive(Debug, Clone, Copy, PartialEq, Eq, PartialOrd, Ord, Hash, Structural)]
pub enum End {
    Until(DateOrDateTime),
    Count(u32),
    Forever,
}

/// A whole byte string read as a `u32`.
pub open spec fn spec_parse_u32_all(s: Seq<u8>) -> Result<u32, ParserError> {
    match crate::values::spec_parse_u64_all(s) {
        Err(e) => Err(e),
        Ok(v) => if v > u32::MAX {
            Err(ParserError { kind: ParserErrorKind::Overflow })
        } else {
            Ok(v as u32)
        },
    }
}

/// Read a whole byte string as a `u32`.
pub fn parse_u32_all(input: &[u8]) -> (r: Result<u32, ParserError>)
    ensures
        match spec_parse_u32_all(input@) {
            Ok(v) => r matches Ok(w) && w == v,
            Err(e) => r matches Err(x) && x == e,
        },
{
    match crate::values::parse_u64_all(input) {
        Err(e) => Err(e),
        Ok(v) => {
            if v > 0xffff_ffff {
                Err(ParserError { kind: ParserErrorKind::Overflow })
            } else {
                Ok(v as u32)
            }
        },
    }
}

/// `UNTIL=` takes a date or date-time (anything after it is dropped).
pub open spec fn spec_parse_until(s: Seq<u8>) -> Result<End, ParserError> {
    match spec_parse_date_or_datetime(s) {
        Err(e) => Err(e),
        Ok((_rest, v)) => Ok(End::Until(v)),
    }
}

/// `COUNT=` takes a whole number.
pub open spec fn spec_parse_count(s: Seq<u8>) -> Result<End, ParserError> {
    match spec_parse_u32_all(s) {
        Err(e) => Err(e),
        Ok(v) => Ok(End::Count(v)),
    }
}

impl End {
    /// Parse the value of `UNTIL=`.
    pub fn parse_until(input: &[u8]) -> (r: Result<End, ParserError>)
        ensures
            r == spec_parse_until(input@),
    {
        match DateOrDateTime::parse(input) {
            Err(e) => Err(e),
            Ok((_rest, v)) => Ok(End::Until(v)),
        }
    }

    /// Parse the value of `COUNT=`.
    pub fn parse_count(input: &[u8]) -> (r: Result<End, ParserError>)
        ensures
            r == spec_parse_count(input@),
    {
        match parse_u32_all(input) {
            Err(e) => Err(e),
            Ok(v) => Ok(End::Count(v)),
        }
    }
}

/// The gap between repetitions: a positive integer, defaulting to 1.
#[derive(Debug, Clone, Copy, PartialEq, Eq, PartialOrd, Ord, Hash)]
pub struct Interval(pub u32);

impl Interval {
    /// The held count.
    pub open spec fn value_spec(&self) -> u32 {
        self.0
    }

    /// An interval is positive.
    pub open spec fn wf(&self) -> bool {
        self.0 > 0
    }

    /// Make an interval from a positive count.
    pub fn new(value: u32) -> (r: Result<Interval, ParserError>)
        ensures
            value > 0 ==> (r matches Ok(v) && v.value_spec() == value && v.wf()),
            value == 0 ==> r == Err::<Interval, ParserError>(
                ParserError { kind: ParserErrorKind::IntOutOfRange { min: 1, max: 0xffff_ffff, value: 0 } },
            ),
    {
        if value == 0 {
            Err(ParserError::out_of_range(1, 0xffff_ffff, 0))
        } else {
            Ok(Interval(value))
        }
    }

    /// Read the count.
    pub fn value(self) -> (r: u32)
        ensures
            r == self.value_spec(),
    {
        self.0
    }

    /// Replace the count with a positive one.
    pub fn set_value(&mut self, value: u32) -> (r: Result<(), ParserError>)
        ensures
            value > 0 ==> (r is Ok && final(self).value_spec() == value && final(self).wf()),
            value == 0 ==> (r is Err && *final(self) == *old(self)),
    {
        if value == 0 {
            Err(ParserError::out_of_range(1, 0xffff_ffff, 0))
        } else {
            self.0 = value;
            Ok(())
        }
    }
}

/// `INTERVAL=` takes a positive whole number.
pub open spec fn spec_parse_interval(s: Seq<u8>) -> Result<u32, ParserError> {
    match spec_parse_u32_all(s) {
        Err(e) => Err(e),
        Ok(v) => if v == 0 {
            Err(ParserError { kind: ParserErrorKind::IntOutOfRange { min: 1, max: 0xffff_ffff, value: 0 } })
        } else {
            Ok(v)
        },
    }
}

impl Interval {
    /// Parse the value of `INTERVAL=`.
    pub fn parse(input: &[u8]) -> (r: Result<Interval, ParserError>)
        ensures
            match spec_parse_interval(input@) {
                Ok(v) => r matches Ok(iv) && iv.value_spec() == v && iv.wf(),
                Err(e) => r matches Err(x) && x == e,
            },
    {
        match parse_u32_all(input) {
            Err(e) => Err(e),
            Ok(v) => Interval::new(v),
        }
    }
}

/// A day of the week.
#[derive(Debug, Clone, Copy, PartialEq, Eq, PartialOrd, Ord, Hash, Structural)]
pub enum WeekDay {
    Sunday,
    Monday,
    Tuesday,
    Wednesday,
    Thursday,
    Friday,
    Saturday,
}

/// A two-letter weekday code at the front.
pub open spec fn spec_parse_weekday(s: Seq<u8>) -> Result<(Seq<u8>, WeekDay), ParserError> {
    if s.len() < 2 {
        Err(ParserError { kind: ParserErrorKind::UnknownToken })
    } else {
        let rest = s.skip(2);
        let code = s.take(2);
        if code == kw_su() {
            Ok((rest, WeekDay::Sunday))
        } else if code == kw_mo() {
            Ok((rest, WeekDay::Monday))
        } else if code == kw_tu() {
            Ok((rest, WeekDay::Tuesday))
        } else if code == kw_we() {
            Ok((rest, WeekDay::Wednesday))
        } else if code == kw_th() {
            Ok((rest, WeekDay::Thursday))
        } else if code == kw_fr() {
            Ok((rest, WeekDay::Friday))
        } else if code == kw_sa() {
            Ok((rest, WeekDay::Saturday))
        } else {
            Err(ParserError { kind: ParserErrorKind::UnknownToken })
        }
    }
}

impl WeekDay {
    /// Parse a two-letter weekday code from the front of `input`.
    pub fn parse(input: &[u8]) -> (r: Result<(Vec<u8>, WeekDay), ParserError>)
        ensures
            match spec_parse_weekday(input@) {
                Ok(p) => r matches Ok(q) && q.0@ == p.0 && q.1 == p.1,
                Err(e) => r matches Err(x) && x == e,
            },
    {
        if input.len() < 2 {
            return Err(ParserError { kind: ParserErrorKind::UnknownToken });
        }
        let code = copy_range(input, 0, 2);
        let rest = copy_range(input, 2, input.len());
        let day = if eq_bytes(code.as_slice(), lit_su().as_slice()) {
            WeekDay::Sunday
        } else if eq_bytes(code.as_slice(), lit_mo().as_slice()) {
            WeekDay::Monday
        } else if eq_bytes(code.as_slice(), lit_tu().as_slice()) {
            WeekDay::Tuesday
        } else if eq_bytes(code.as_slice(), lit_we().as_slice()) {
            WeekDay::Wednesday
        } else if eq_bytes(code.as_slice(), lit_th().as_slice()) {
            WeekDay::Thursday
        } else if eq_bytes(code.as_slice(), lit_fr().as_slice()) {
            WeekDay::Friday
        } else if eq_bytes(code.as_slice(), lit_sa().as_slice()) {
            WeekDay::Saturday
        } else {
            return Err(ParserError { kind: ParserErrorKind::UnknownToken });
        };
        Ok((rest, day))
    }
}

/// A small signed integer: an optional sign, then 1 or 2 digits in
/// `lo..=hi`; `-` negates.
pub open spec fn spec_parse_signed2(lo: int, hi: int, s: Seq<u8>) -> Result<
    (Seq<u8>, i8),
    ParserError,
> {
    let (s1, neg) = spec_opt_sign(s);
    match spec_digit_int(1, 2, lo, hi, s1) {
        Err(e) => Err(e),
        Ok((r, v)) => Ok(
            (
                r,
                (if neg {
                    -v
                } else {
                    v
                }) as i8,
            ),
        ),
    }
}

/// Parse an optional sign and a 1-2 digit integer in `lo..=hi`.
pub fn parse_signed2(lo: u8, hi: u8, input: &[u8]) -> (r: Result<(Vec<u8>, i8), ParserError>)
    requires
        hi <= 100,
    ensures
        match spec_parse_signed2(lo as int, hi as int, input@) {
            Ok(p) => r matches Ok(q) && q.0@ == p.0 && q.1 == p.1,
            Err(e) => r matches Err(x) && x == e,
        },
{
    let (s1, neg) = opt_sign_is_negative(input);
    match digit_int(1, 2, lo as u32, hi as u32, s1.as_slice()) {
        Err(e) => Err(e),
        Ok((rest, v)) => {
            let sv: i8 = if neg {
                -(v as i8)
            } else {
                v as i8
            };
            Ok((rest, sv))
        },
    }
}

/// A small signed integer: an optional sign, then 1 to 3 digits in
/// `lo..=hi`; `-` negates.
pub open spec fn spec_parse_signed3(lo: int, hi: int, s: Seq<u8>) -> Result<
    (Seq<u8>, i16),
    ParserError,
> {
    let (s1, neg) = spec_opt_sign(s);
    match spec_digit_int(1, 3, lo, hi, s1) {
        Err(e) => Err(e),
        Ok((r, v)) => Ok(
            (
                r,
                (if neg {
                    -v
                } else {
                    v
                }) as i16,
            ),
        ),
    }
}

/// Parse an optional sign and a 1-3 digit integer in `lo..=hi`.
pub fn parse_signed3(lo: u16, hi: u16, input: &[u8]) -> (r: Result<(Vec<u8>, i16), ParserError>)
    requires
        hi <= 1000,
    ensures
        match spec_parse_signed3(lo as int, hi as int, input@) {
            Ok(p) => r matches Ok(q) && q.0@ == p.0 && q.1 == p.1,
            Err(e) => r matches Err(x) && x == e,
        },
{
    let (s1, neg) = opt_sign_is_negative(input);
    match digit_int(1, 3, lo as u32, hi as u32, s1.as_slice()) {
        Err(e) => Err(e),
        Ok((rest, v)) => {
            let sv: i16 = if neg {
                -(v as i16)
            } else {
                v as i16
            };
            Ok((rest, sv))
        },
    }
}

/// A signed week ordinal, 1 to 53, `-` for counting from the end.
pub fn ordwk(input: &[u8]) -> (r: Result<(Vec<u8>, i8), ParserError>)
    ensures
        match spec_parse_signed2(1, 53, input@) {
            Ok(p) => r matches Ok(q) && q.0@ == p.0 && q.1 == p.1,
            Err(e) => r matches Err(x) && x == e,
        },
{
    parse_signed2(1, 53, input)
}

/// A signed day of month, 1 to 31, `-` for counting from the end.
pub fn monthdaynum(input: &[u8]) -> (r: Result<(Vec<u8>, i8), ParserError>)
    ensures
        match spec_parse_signed2(1, 31, input@) {
            Ok(p) => r matches Ok(q) && q.0@ == p.0 && q.1 == p.1,
            Err(e) => r matches Err(x) && x == e,
        },
{
    parse_signed2(1, 31, input)
}

/// A signed day of year, 1 to 366, `-` for counting from the end.
pub fn yeardaynum(input: &[u8]) -> (r: Result<(Vec<u8>, i16), ParserError>)
    ensures
        match spec_parse_signed3(1, 366, input@) {
            Ok(p) => r matches Ok(q) && q.0@ == p.0 && q.1 == p.1,
            Err(e) => r matches Err(x) && x == e,
        },
{
    parse_signed3(1, 366, input)
}

/// A weekday with an optional leading week ordinal.
#[derive(Debug, Clone, Copy, PartialEq, Eq, PartialOrd, Ord, Hash, Structural)]
pub struct WeekDayNum {
    pub week_num: Option<i8>,
    pub weekday: WeekDay,
}

/// Weekday-with-ordinal grammar: a signed ordinal when a digit or sign
/// leads, then the weekday code.
pub open spec fn spec_parse_weekdaynum(s: Seq<u8>) -> Result<(Seq<u8>, WeekDayNum), ParserError> {
    if s.len() > 0 && (crate::helpers::is_digit(s[0]) || s[0] == HYPHEN || s[0] == PLUS) {
        match spec_parse_signed2(1, 53, s) {
            Err(e) => Err(e),
            Ok((r, wn)) => match spec_parse_weekday(r) {
                Err(e) => Err(e),
                Ok((r2, wd)) => Ok((r2, WeekDayNum { week_num: Some(wn), weekday: wd })),
            },
        }
    } else {
        match spec_parse_weekday(s) {
            Err(e) => Err(e),
            Ok((r2, wd)) => Ok((r2, WeekDayNum { week_num: None, weekday: wd })),
        }
    }
}

impl WeekDayNum {
    /// Parse a weekday with an optional leading ordinal.
    pub fn parse(input: &[u8]) -> (r: Result<(Vec<u8>, WeekDayNum), ParserError>)
        ensures
            match spec_parse_weekdaynum(input@) {
                Ok(p) => r matches Ok(q) && q.0@ == p.0 && q.1 == p.1,
                Err(e) => r matches Err(x) && x == e,
            },
    {
        if input.len() > 0 && (crate::helpers::byte_is_digit(input[0]) || input[0] == HYPHEN
            || input[0] == PLUS) {
            let (r, wn) = match ordwk(input) {
                Ok(v) => v,
                Err(e) => {
                    return Err(e);
                },
            };
            match WeekDay::parse(r.as_slice()) {
                Err(e) => Err(e),
                Ok((r2, wd)) => Ok((r2, WeekDayNum { week_num: Some(wn), weekday: wd })),
            }
        } else {
            match WeekDay::parse(input) {
                Err(e) => Err(e),
                Ok((r2, wd)) => Ok((r2, WeekDayNum { week_num: None, weekday: wd })),
            }
        }
    }
}

/// The day a week begins on.
#[derive(Debug, Clone, Copy, PartialEq, Eq, PartialOrd, Ord, Hash, Structural)]
pub struct WeekStart(pub WeekDay);

impl WeekStart {
    /// Parse the value of `WKST=`: a weekday code.
    pub fn parse(input: &[u8]) -> (r: Result<(Vec<u8>, WeekStart), ParserError>)
        ensures
            match spec_parse_weekday(input@) {
                Ok(p) => r matches Ok(q) && q.0@ == p.0 && q.1 == (WeekStart(p.1)),
                Err(e) => r matches Err(x) && x == e,
            },
    {
        match WeekDay::parse(input) {
            Err(e) => Err(e),
            Ok((r, wd)) => Ok((r, WeekStart(wd))),
        }
    }
}

// ---------------------------------------------------------------------------
// Comma-separated filter lists
// ---------------------------------------------------------------------------

/// A successful bounded-integer parse consumes at least one byte.
pub proof fn lemma_digit_int_progress(min_d: int, max_d: int, lo: int, hi: int, s: Seq<u8>)
    requires
        1 <= min_d <= max_d,
    ensures
        (spec_digit_int(min_d, max_d, lo, hi, s) matches Ok(p) ==> p.0.len() < s.len()),
{
    crate::helpers::lemma_digit_run_len(s, 0);
    let run = crate::helpers::digit_run_len(s, 0);
    if run >= min_d {
        let n = if run > max_d {
            max_d
        } else {
            run
        };
        assert(1 <= n <= s.len());
        assert(s.skip(n).len() == s.len() - n);
    }
}

/// A successful signed parse consumes at least one byte.
pub proof fn lemma_signed2_progress(lo: int, hi: int, s: Seq<u8>)
    ensures
        (spec_parse_signed2(lo, hi, s) matches Ok(p) ==> p.0.len() < s.len()),
{
    let (s1, _n) = spec_opt_sign(s);
    lemma_digit_int_progress(1, 2, lo, hi, s1);
}

/// A successful signed parse consumes at least one byte.
pub proof fn lemma_signed3_progress(lo: int, hi: int, s: Seq<u8>)
    ensures
        (spec_parse_signed3(lo, hi, s) matches Ok(p) ==> p.0.len() < s.len()),
{
    let (s1, _n) = spec_opt_sign(s);
    lemma_digit_int_progress(1, 3, lo, hi, s1);
}

/// A successful weekday-with-ordinal parse consumes at least one byte.
pub proof fn lemma_weekdaynum_progress(s: Seq<u8>)
    ensures
        (spec_parse_weekdaynum(s) matches Ok(p) ==> p.0.len() < s.len()),
{
    if s.len() > 0 && (crate::helpers::is_digit(s[0]) || s[0] == HYPHEN || s[0] == PLUS) {
        lemma_signed2_progress(1, 53, s);
    }
}

/// Further `,`-separated 1-2 digit integers in `lo..=hi`.
pub open spec fn u8_list_loop(lo: int, hi: int, s: Seq<u8>, acc: Seq<u8>) -> Result<
    (Seq<u8>, Seq<u8>),
    ParserError,
>
    decreases s.len(),
    via u8_list_loop_dec
{
    if s.len() > 0 && s[0] == COMMA {
        match spec_digit_int(1, 2, lo, hi, s.skip(1)) {
            Err(e) => Err(e),
            Ok((r, v)) => u8_list_loop(lo, hi, r, acc.push(v as u8)),
        }
    } else {
        Ok((s, acc))
    }
}

#[via_fn]
proof fn u8_list_loop_dec(lo: int, hi: int, s: Seq<u8>, acc: Seq<u8>) {
    if s.len() > 0 && s[0] == COMMA {
        lemma_digit_int_progress(1, 2, lo, hi, s.skip(1));
    }
}

/// A `,`-separated list of 1-2 digit integers in `lo..=hi`, one at least.
pub open spec fn spec_parse_u8_list(lo: int, hi: int, s: Seq<u8>) -> Result<
    (Seq<u8>, Seq<u8>),
    ParserError,
> {
    match spec_digit_int(1, 2, lo, hi, s) {
        Err(e) => Err(e),
        Ok((r, v)) => u8_list_loop(lo, hi, r, seq![v as u8]),
    }
}

/// Parse a `,`-separated list of 1-2 digit integers in `lo..=hi`.
pub fn parse_u8_list(lo: u8, hi: u8, input: &[u8]) -> (r: Result<(Vec<u8>, VecOne<u8>), ParserError>)
    requires
        hi < 100,
    ensures
        match spec_parse_u8_list(lo as int, hi as int, input@) {
            Ok(p) => r matches Ok(q) && q.0@ == p.0 && q.1.elems() == p.1,
            Err(e) => r matches Err(x) && x == e,
        },
{
    let (first_rest, first) = match digit_int(1, 2, lo as u32, hi as u32, input) {
        Ok(v) => v,
        Err(e) => {
            return Err(e);
        },
    };
    let mut rest = first_rest;
    let mut out = VecOne::new(first as u8);
    loop
        invariant
            spec_parse_u8_list(lo as int, hi as int, input@) == u8_list_loop(
                lo as int,
                hi as int,
                rest@,
                out.elems(),
            ),
            lo < 100,
            hi < 100,
        decreases rest@.len(),
    {
        if !(rest.len() > 0 && rest.as_slice()[0] == COMMA) {
            return Ok((rest, out));
        }
        let sub = copy_range(rest.as_slice(), 1, rest.len());
        proof {
            lemma_digit_int_progress(1, 2, lo as int, hi as int, sub@);
        }
        match digit_int(1, 2, lo as u32, hi as u32, sub.as_slice()) {
            Err(e) => {
                return Err(e);
            },
            Ok((r, v)) => {
                out.push(v as u8);
                rest = r;
            },
        }
    }
}

/// Further `,`-separated signed 1-2 digit integers.
pub open spec fn i8_list_loop(lo: int, hi: int, s: Seq<u8>, acc: Seq<i8>) -> Result<
    (Seq<u8>, Seq<i8>),
    ParserError,
>
    decreases s.len(),
    via i8_list_loop_dec
{
    if s.len() > 0 && s[0] == COMMA {
        match spec_parse_signed2(lo, hi, s.skip(1)) {
            Err(e) => Err(e),
            Ok((r, v)) => i8_list_loop(lo, hi, r, acc.push(v)),
        }
    } else {
        Ok((s, acc))
    }
}

#[via_fn]
proof fn i8_list_loop_dec(lo: int, hi: int, s: Seq<u8>, acc: Seq<i8>) {
    if s.len() > 0 && s[0] == COMMA {
        lemma_signed2_progress(lo, hi, s.skip(1));
    }
}

/// A `,`-separated list of signed 1-2 digit integers, one at least.
pub open spec fn spec_parse_i8_list(lo: int, hi: int, s: Seq<u8>) -> Result<
    (Seq<u8>, Seq<i8>),
    ParserError,
> {
    match spec_parse_signed2(lo, hi, s) {
        Err(e) => Err(e),
        Ok((r, v)) => i8_list_loop(lo, hi, r, seq![v]),
    }
}

/// Parse a `,`-separated list of signed 1-2 digit integers in `lo..=hi`.
pub fn parse_i8_list(lo: u8, hi: u8, input: &[u8]) -> (r: Result<(Vec<u8>, VecOne<i8>), ParserError>)
    requires
        hi <= 100,
    ensures
        match spec_parse_i8_list(lo as int, hi as int, input@) {
            Ok(p) => r matches Ok(q) && q.0@ == p.0 && q.1.elems() == p.1,
            Err(e) => r matches Err(x) && x == e,
        },
{
    let (first_rest, first) = match parse_signed2(lo, hi, input) {
        Ok(v) => v,
        Err(e) => {
            return Err(e);
        },
    };
    let mut rest = first_rest;
    let mut out = VecOne::new(first);
    loop
        invariant
            spec_parse_i8_list(lo as int, hi as int, input@) == i8_list_loop(
                lo as int,
                hi as int,
                rest@,
                out.elems(),
            ),
            hi <= 100,
        decreases rest@.len(),
    {
        if !(rest.len() > 0 && rest.as_slice()[0] == COMMA) {
            return Ok((rest, out));
        }
        let sub = copy_range(rest.as_slice(), 1, rest.len());
        proof {
            lemma_signed2_progress(lo as int, hi as int, sub@);
        }
        match parse_signed2(lo, hi, sub.as_slice()) {
            Err(e) => {
                return Err(e);
            },
            Ok((r, v)) => {
                out.push(v);
                rest = r;
            },
        }
    }
}

/// Further `,`-separated signed 1-3 digit integers.
pub open spec fn i16_list_loop(lo: int, hi: int, s: Seq<u8>, acc: Seq<i16>) -> Result<
    (Seq<u8>, Seq<i16>),
    ParserError,
>
    decreases s.len(),
    via i16_list_loop_dec
{
    if s.len() > 0 && s[0] == COMMA {
        match spec_parse_signed3(lo, hi, s.skip(1)) {
            Err(e) => Err(e),
            Ok((r, v)) => i16_list_loop(lo, hi, r, acc.push(v)),
        }
    } else {
        Ok((s, acc))
    }
}

#[via_fn]
proof fn i16_list_loop_dec(lo: int, hi: int, s: Seq<u8>, acc: Seq<i16>) {
    if s.len() > 0 && s[0] == COMMA {
        lemma_signed3_progress(lo, hi, s.skip(1));
    }
}

/// A `,`-separated list of signed 1-3 digit integers, one at least.
pub open spec fn spec_parse_i16_list(lo: int, hi: int, s: Seq<u8>) -> Result<
    (Seq<u8>, Seq<i16>),
    ParserError,
> {
    match spec_parse_signed3(lo, hi, s) {
        Err(e) => Err(e),
        Ok((r, v)) => i16_list_loop(lo, hi, r, seq![v]),
    }
}

/// Parse a `,`-separated list of signed 1-3 digit integers in `lo..=hi`.
pub fn parse_i16_list(lo: u16, hi: u16, input: &[u8]) -> (r: Result<
    (Vec<u8>, VecOne<i16>),
    ParserError,
>)
    requires
        hi <= 1000,
    ensures
        match spec_parse_i16_list(lo as int, hi as int, input@) {
            Ok(p) => r matches Ok(q) && q.0@ == p.0 && q.1.elems() == p.1,
            Err(e) => r matches Err(x) && x == e,
        },
{
    let (first_rest, first) = match parse_signed3(lo, hi, input) {
        Ok(v) => v,
        Err(e) => {
            return Err(e);
        },
    };
    let mut rest = first_rest;
    let mut out = VecOne::new(first);
    loop
        invariant
            spec_parse_i16_list(lo as int, hi as int, input@) == i16_list_loop(
                lo as int,
                hi as int,
                rest@,
                out.elems(),
            ),
            hi <= 1000,
        decreases rest@.len(),
    {
        if !(rest.len() > 0 && rest.as_slice()[0] == COMMA) {
            return Ok((rest, out));
        }
        let sub = copy_range(rest.as_slice(), 1, rest.len());
        proof {
            lemma_signed3_progress(lo as int, hi as int, sub@);
        }
        match parse_signed3(lo, hi, sub.as_slice()) {
            Err(e) => {
                return Err(e);
            },
            Ok((r, v)) => {
                out.push(v);
                rest = r;
            },
        }
    }
}

/// Further `,`-separated weekdays with optional ordinals.
pub open spec fn wdn_list_loop(s: Seq<u8>, acc: Seq<WeekDayNum>) -> Result<
    (Seq<u8>, Seq<WeekDayNum>),
    ParserError,
>
    decreases s.len(),
    via wdn_list_loop_dec
{
    if s.len() > 0 && s[0] == COMMA {
        match spec_parse_weekdaynum(s.skip(1)) {
            Err(e) => Err(e),
            Ok((r, v)) => wdn_list_loop(r, acc.push(v)),
        }
    } else {
        Ok((s, acc))
    }
}

#[via_fn]
proof fn wdn_list_loop_dec(s: Seq<u8>, acc: Seq<WeekDayNum>) {
    if s.len() > 0 && s[0] == COMMA {
        lemma_weekdaynum_progress(s.skip(1));
    }
}

/// A `,`-separated list of weekdays with optional ordinals, one at least.
pub open spec fn spec_parse_wdn_list(s: Seq<u8>) -> Result<
    (Seq<u8>, Seq<WeekDayNum>),
    ParserError,
> {
    match spec_parse_weekdaynum(s) {
        Err(e) => Err(e),
        Ok((r, v)) => wdn_list_loop(r, seq![v]),
    }
}

/// Parse a `,`-separated list of weekdays with optional ordinals.
pub fn parse_wdn_list(input: &[u8]) -> (r: Result<(Vec<u8>, VecOne<WeekDayNum>), ParserError>)
    ensures
        match spec_parse_wdn_list(input@) {
            Ok(p) => r matches Ok(q) && q.0@ == p.0 && q.1.elems() == p.1,
            Err(e) => r matches Err(x) && x == e,
        },
{
    let (first_rest, first) = match WeekDayNum::parse(input) {
        Ok(v) => v,
        Err(e) => {
            return Err(e);
        },
    };
    let mut rest = first_rest;
    let mut out = VecOne::new(first);
    loop
        invariant
            spec_parse_wdn_list(input@) == wdn_list_loop(rest@, out.elems()),
        decreases rest@.len(),
    {
        if !(rest.len() > 0 && rest.as_slice()[0] == COMMA) {
            return Ok((rest, out));
        }
        let sub = copy_range(rest.as_slice(), 1, rest.len());
        proof {
            lemma_weekdaynum_progress(sub@);
        }
        match WeekDayNum::parse(sub.as_slice()) {
            Err(e) => {
                return Err(e);
            },
            Ok((r, v)) => {
                out.push(v);
                rest = r;
            },
        }
    }
}

/// `BYSECOND=`: seconds 0 to 59.
#[derive(Debug, Clone, PartialEq, Eq)]
pub struct BySecond(pub VecOne<u8>);

/// `BYMINUTE=`: minutes 0 to 59.
#[derive(Debug, Clone, PartialEq, Eq)]
pub struct ByMinute(pub VecOne<u8>);

/// `BYHOUR=`: hours 0 to 23.
#[derive(Debug, Clone, PartialEq, Eq)]
pub struct ByHour(pub VecOne<u8>);

/// `BYDAY=`: weekdays with optional ordinals.
#[derive(Debug, Clone, PartialEq, Eq)]
pub struct ByWeekDay(pub VecOne<WeekDayNum>);

/// `BYMONTHDAY=`: signed days of month, 1 to 31.
#[derive(Debug, Clone, PartialEq, Eq)]
pub struct ByMonthDay(pub VecOne<i8>);

/// `BYYEARDAY=`: signed days of year, 1 to 366.
#[derive(Debug, Clone, PartialEq, Eq)]
pub struct ByYearDay(pub VecOne<i16>);

/// `BYWEEKNO=`: signed week numbers, 1 to 53.
#[derive(Debug, Clone, PartialEq, Eq)]
pub struct ByWeekNo(pub VecOne<i8>);

/// `BYMONTH=`: months 1 to 12.
#[derive(Debug, Clone, PartialEq, Eq)]
pub struct ByMonth(pub VecOne<u8>);

/// `BYSETPOS=`: signed positions in the expanded set, 1 to 366.
#[derive(Debug, Clone, PartialEq, Eq)]
pub struct BySetPos(pub VecOne<i16>);

/// A structured repetition rule: frequency, termination, interval, the "by"
/// filters and the week start. Parsed from `FREQ=...` with `;`-separated
/// `KEY=value` parts; each part may be given at most once, unknown keys are
/// a hard error.
#[derive(Debug, Clone, PartialEq, Eq)]
pub struct Recur {
    pub freq: Freq,
    pub end: End,
    pub interval: Option<Interval>,
    pub by_second: Option<BySecond>,
    pub by_minute: Option<ByMinute>,
    pub by_hour: Option<ByHour>,
    pub by_week_day: Option<ByWeekDay>,
    pub by_month_day: Option<ByMonthDay>,
    pub by_year_day: Option<ByYearDay>,
    pub by_week_no: Option<ByWeekNo>,
    pub by_month: Option<ByMonth>,
    pub by_set_pos: Option<BySetPos>,
    pub week_start: Option<WeekStart>,
}

/// Spec-level form of a recurrence rule, the filter lists as sequences.
#[verifier::ext_equal]
pub struct RecurV {
    pub freq: Freq,
    pub end: End,
    pub interval: Option<Interval>,
    pub by_second: Option<Seq<u8>>,
    pub by_minute: Option<Seq<u8>>,
    pub by_hour: Option<Seq<u8>>,
    pub by_week_day: Option<Seq<WeekDayNum>>,
    pub by_month_day: Option<Seq<i8>>,
    pub by_year_day: Option<Seq<i16>>,
    pub by_week_no: Option<Seq<i8>>,
    pub by_month: Option<Seq<u8>>,
    pub by_set_pos: Option<Seq<i16>>,
    pub week_start: Option<WeekStart>,
}

impl View for Recur {
    type V = RecurV;

    open spec fn view(&self) -> RecurV {
        RecurV {
            freq: self.freq,
            end: self.end,
            interval: self.interval,
            by_second: match &self.by_second {
                Some(v) => Some(v.0.elems()),
                None => None,
            },
            by_minute: match &self.by_minute {
                Some(v) => Some(v.0.elems()),
                None => None,
            },
            by_hour: match &self.by_hour {
                Some(v) => Some(v.0.elems()),
                None => None,
            },
            by_week_day: match &self.by_week_day {
                Some(v) => Some(v.0.elems()),
                None => None,
            },
            by_month_day: match &self.by_month_day {
                Some(v) => Some(v.0.elems()),
                None => None,
            },
            by_year_day: match &self.by_year_day {
                Some(v) => Some(v.0.elems()),
                None => None,
            },
            by_week_no: match &self.by_week_no {
                Some(v) => Some(v.0.elems()),
                None => None,
            },
            by_month: match &self.by_month {
                Some(v) => Some(v.0.elems()),
                None => None,
            },
            by_set_pos: match &self.by_set_pos {
                Some(v) => Some(v.0.elems()),
                None => None,
            },
            week_start: self.week_start,
        }
    }
}

/// A rule before any part is set: the frequency, no termination, and every
/// optional part absent.
pub open spec fn spec_recur_new(freq: Freq) -> RecurV {
    RecurV {
        freq,
        end: End::Forever,
        interval: None,
        by_second: None,
        by_minute: None,
        by_hour: None,
        by_week_day: None,
        by_month_day: None,
        by_year_day: None,
        by_week_no: None,
        by_month: None,
        by_set_pos: None,
        week_start: None,
    }
}

/// One parsed `KEY=value` part of a rule.
#[derive(Debug, Clone, PartialEq, Eq)]
pub enum Param {
    End(End),
    Interval(Interval),
    BySecond(BySecond),
    ByMinute(ByMinute),
    ByHour(ByHour),
    ByWeekDay(ByWeekDay),
    ByMonthDay(ByMonthDay),
    ByYearDay(ByYearDay),
    ByWeekNo(ByWeekNo),
    ByMonth(ByMonth),
    BySetPos(BySetPos),
    WeekStart(WeekStart),
}

/// Spec-level form of one rule part.
#[verifier::ext_equal]
pub enum ParamV {
    End(End),
    Interval(Interval),
    BySecond(Seq<u8>),
    ByMinute(Seq<u8>),
    ByHour(Seq<u8>),
    ByWeekDay(Seq<WeekDayNum>),
    ByMonthDay(Seq<i8>),
    ByYearDay(Seq<i16>),
    ByWeekNo(Seq<i8>),
    ByMonth(Seq<u8>),
    BySetPos(Seq<i16>),
    WeekStart(WeekStart),
}

impl View for Param {
    type V = ParamV;

    open spec fn view(&self) -> ParamV {
        match self {
            Param::End(e) => ParamV::End(*e),
            Param::Interval(i) => ParamV::Interval(*i),
            Param::BySecond(v) => ParamV::BySecond(v.0.elems()),
            Param::ByMinute(v) => ParamV::ByMinute(v.0.elems()),
            Param::ByHour(v) => ParamV::ByHour(v.0.elems()),
            Param::ByWeekDay(v) => ParamV::ByWeekDay(v.0.elems()),
            Param::ByMonthDay(v) => ParamV::ByMonthDay(v.0.elems()),
            Param::ByYearDay(v) => ParamV::ByYearDay(v.0.elems()),
            Param::ByWeekNo(v) => ParamV::ByWeekNo(v.0.elems()),
            Param::ByMonth(v) => ParamV::ByMonth(v.0.elems()),
            Param::BySetPos(v) => ParamV::BySetPos(v.0.elems()),
            Param::WeekStart(w) => ParamV::WeekStart(*w),
        }
    }
}

/// One `KEY=value` part: the key picks the grammar of the value; an unknown
/// key is a hard error. Keys are matched exactly. What a list grammar
/// leaves unread is dropped.
pub open spec fn spec_parse_recur_param(s: Seq<u8>) -> Result<ParamV, ParserError> {
    match spec_try_split_once(s, EQUALS) {
        None => Err(ParserError { kind: ParserErrorKind::MissingLiteral { lit: EQUALS } }),
        Some((key, val)) => {
            if key == kw_until() {
                match spec_parse_until(val) {
                    Err(e) => Err(e),
                    Ok(end) => Ok(ParamV::End(end)),
                }
            } else if key == kw_count() {
                match spec_parse_count(val) {
                    Err(e) => Err(e),
                    Ok(end) => Ok(ParamV::End(end)),
                }
            } else if key == kw_interval() {
                match spec_parse_interval(val) {
                    Err(e) => Err(e),
                    Ok(v) => Ok(ParamV::Interval(Interval(v))),
                }
            } else if key == kw_bysecond() {
                match spec_parse_u8_list(0, 59, val) {
                    Err(e) => Err(e),
                    Ok((_r, l)) => Ok(ParamV::BySecond(l)),
                }
            } else if key == kw_byminute() {
                match spec_parse_u8_list(0, 59, val) {
                    Err(e) => Err(e),
                    Ok((_r, l)) => Ok(ParamV::ByMinute(l)),
                }
            } else if key == kw_byhour() {
                match spec_parse_u8_list(0, 23, val) {
                    Err(e) => Err(e),
                    Ok((_r, l)) => Ok(ParamV::ByHour(l)),
                }
            } else if key == kw_byday() {
                match spec_parse_wdn_list(val) {
                    Err(e) => Err(e),
                    Ok((_r, l)) => Ok(ParamV::ByWeekDay(l)),
                }
            } else if key == kw_bymonthday() {
                match spec_parse_i8_list(1, 31, val) {
                    Err(e) => Err(e),
                    Ok((_r, l)) => Ok(ParamV::ByMonthDay(l)),
                }
            } else if key == kw_byyearday() {
                match spec_parse_i16_list(1, 366, val) {
                    Err(e) => Err(e),
                    Ok((_r, l)) => Ok(ParamV::ByYearDay(l)),
                }
            } else if key == kw_byweekno() {
                match spec_parse_i8_list(1, 53, val) {
                    Err(e) => Err(e),
                    Ok((_r, l)) => Ok(ParamV::ByWeekNo(l)),
                }
            } else if key == kw_bymonth() {
                match spec_parse_u8_list(1, 12, val) {
                    Err(e) => Err(e),
                    Ok((_r, l)) => Ok(ParamV::ByMonth(l)),
                }
            } else if key == kw_bysetpos() {
                match spec_parse_i16_list(1, 366, val) {
                    Err(e) => Err(e),
                    Ok((_r, l)) => Ok(ParamV::BySetPos(l)),
                }
            } else if key == kw_wkst() {
                match spec_parse_weekday(val) {
                    Err(e) => Err(e),
                    Ok((_r, wd)) => Ok(ParamV::WeekStart(WeekStart(wd))),
                }
            } else {
                Err(ParserError { kind: ParserErrorKind::UnknownToken })
            }
        },
    }
}

impl Param {
    /// Parse one `KEY=value` part of a rule.
    pub fn parse(input: &[u8]) -> (r: Result<Param, ParserError>)
        ensures
            match spec_parse_recur_param(input@) {
                Ok(p) => r matches Ok(q) && q@ == p,
                Err(e) => r matches Err(x) && x == e,
            },
    {
        let parts = match try_split_once(input, EQUALS) {
            Some(p) => p,
            None => {
                return Err(ParserError::tag(EQUALS));
            },
        };
        let (key, val) = parts;
        let k = key.as_slice();
        let v = val.as_slice();
        if eq_bytes(k, lit_until().as_slice()) {
            match End::parse_until(v) {
                Err(e) => Err(e),
                Ok(end) => Ok(Param::End(end)),
            }
        } else if eq_bytes(k, lit_count().as_slice()) {
            match End::parse_count(v) {
                Err(e) => Err(e),
                Ok(end) => Ok(Param::End(end)),
            }
        } else if eq_bytes(k, lit_interval().as_slice()) {
            match Interval::parse(v) {
                Err(e) => Err(e),
                Ok(iv) => Ok(Param::Interval(iv)),
            }
        } else if eq_bytes(k, lit_bysecond().as_slice()) {
            match parse_u8_list(0, 59, v) {
                Err(e) => Err(e),
                Ok((_r, l)) => Ok(Param::BySecond(BySecond(l))),
            }
        } else if eq_bytes(k, lit_byminute().as_slice()) {
            match parse_u8_list(0, 59, v) {
                Err(e) => Err(e),
                Ok((_r, l)) => Ok(Param::ByMinute(ByMinute(l))),
            }
        } else if eq_bytes(k, lit_byhour().as_slice()) {
            match parse_u8_list(0, 23, v) {
                Err(e) => Err(e),
                Ok((_r, l)) => Ok(Param::ByHour(ByHour(l))),
            }
        } else if eq_bytes(k, lit_byday().as_slice()) {
            match parse_wdn_list(v) {
                Err(e) => Err(e),
                Ok((_r, l)) => Ok(Param::ByWeekDay(ByWeekDay(l))),
            }
        } else if eq_bytes(k, lit_bymonthday().as_slice()) {
            match parse_i8_list(1, 31, v) {
                Err(e) => Err(e),
                Ok((_r, l)) => Ok(Param::ByMonthDay(ByMonthDay(l))),
            }
        } else if eq_bytes(k, lit_byyearday().as_slice()) {
            match parse_i16_list(1, 366, v) {
                Err(e) => Err(e),
                Ok((_r, l)) => Ok(Param::ByYearDay(ByYearDay(l))),
            }
        } else if eq_bytes(k, lit_byweekno().as_slice()) {
            match parse_i8_list(1, 53, v) {
                Err(e) => Err(e),
                Ok((_r, l)) => Ok(Param::ByWeekNo(ByWeekNo(l))),
            }
        } else if eq_bytes(k, lit_bymonth().as_slice()) {
            match parse_u8_list(1, 12, v) {
                Err(e) => Err(e),
                Ok((_r, l)) => Ok(Param::ByMonth(ByMonth(l))),
            }
        } else if eq_bytes(k, lit_bysetpos().as_slice()) {
            match parse_i16_list(1, 366, v) {
                Err(e) => Err(e),
                Ok((_r, l)) => Ok(Param::BySetPos(BySetPos(l))),
            }
        } else if eq_bytes(k, lit_wkst().as_slice()) {
            match WeekStart::parse(v) {
                Err(e) => Err(e),
                Ok((_r, ws)) => Ok(Param::WeekStart(ws)),
            }
        } else {
            Err(ParserError { kind: ParserErrorKind::UnknownToken })
        }
    }
}

/// Set one part of a rule: setting a part that is already set names it in a
/// duplicate-part error.
pub open spec fn spec_set_param(r: RecurV, p: ParamV) -> Result<RecurV, ParserError> {
    match p {
        ParamV::End(end) => {
            if !(r.end is Forever) {
                Err(ParserError { kind: ParserErrorKind::DuplicateRecurPart { part: RecurPart::End } })
            } else {
                Ok(RecurV { end, ..r })
            }
        },
        ParamV::Interval(v) => {
            if r.interval is Some {
                Err(ParserError { kind: ParserErrorKind::DuplicateRecurPart { part: RecurPart::Interval } })
            } else {
                Ok(RecurV { interval: Some(v), ..r })
            }
        },
        ParamV::BySecond(l) => {
            if r.by_second is Some {
                Err(ParserError { kind: ParserErrorKind::DuplicateRecurPart { part: RecurPart::BySecond } })
            } else {
                Ok(RecurV { by_second: Some(l), ..r })
            }
        },
        ParamV::ByMinute(l) => {
            if r.by_minute is Some {
                Err(ParserError { kind: ParserErrorKind::DuplicateRecurPart { part: RecurPart::ByMinute } })
            } else {
                Ok(RecurV { by_minute: Some(l), ..r })
            }
        },
        ParamV::ByHour(l) => {
            if r.by_hour is Some {
                Err(ParserError { kind: ParserErrorKind::DuplicateRecurPart { part: RecurPart::ByHour } })
            } else {
                Ok(RecurV { by_hour: Some(l), ..r })
            }
        },
        ParamV::ByWeekDay(l) => {
            if r.by_week_day is Some {
                Err(ParserError { kind: ParserErrorKind::DuplicateRecurPart { part: RecurPart::ByDay } })
            } else {
                Ok(RecurV { by_week_day: Some(l), ..r })
            }
        },
        ParamV::ByMonthDay(l) => {
            if r.by_month_day is Some {
                Err(ParserError { kind: ParserErrorKind::DuplicateRecurPart { part: RecurPart::ByMonthDay } })
            } else {
                Ok(RecurV { by_month_day: Some(l), ..r })
            }
        },
        ParamV::ByYearDay(l) => {
            if r.by_year_day is Some {
                Err(ParserError { kind: ParserErrorKind::DuplicateRecurPart { part: RecurPart::ByYearDay } })
            } else {
                Ok(RecurV { by_year_day: Some(l), ..r })
            }
        },
        ParamV::ByWeekNo(l) => {
            if r.by_week_no is Some {
                Err(ParserError { kind: ParserErrorKind::DuplicateRecurPart { part: RecurPart::ByWeekNo } })
            } else {
                Ok(RecurV { by_week_no: Some(l), ..r })
            }
        },
        ParamV::ByMonth(l) => {
            if r.by_month is Some {
                Err(ParserError { kind: ParserErrorKind::DuplicateRecurPart { part: RecurPart::ByMonth } })
            } else {
                Ok(RecurV { by_month: Some(l), ..r })
            }
        },
        ParamV::BySetPos(l) => {
            if r.by_set_pos is Some {
                Err(ParserError { kind: ParserErrorKind::DuplicateRecurPart { part: RecurPart::BySetPos } })
            } else {
                Ok(RecurV { by_set_pos: Some(l), ..r })
            }
        },
        ParamV::WeekStart(w) => {
            if r.week_start is Some {
                Err(ParserError { kind: ParserErrorKind::DuplicateRecurPart { part: RecurPart::WeekStart } })
            } else {
                Ok(RecurV { week_start: Some(w), ..r })
            }
        },
    }
}

/// Helper to parse a rule: an accumulator with the cardinality checks.
pub struct Builder {
    rec: Recur,
}

impl Builder {
    /// The rule built so far.
    pub closed spec fn rec_spec(&self) -> RecurV {
        self.rec@
    }

    /// A fresh rule with the given frequency.
    pub fn new(freq: Freq) -> (r: Builder)
        ensures
            r.rec_spec() == spec_recur_new(freq),
    {
        let b = Builder {
            rec: Recur {
                freq,
                end: End::Forever,
                interval: None,
                by_second: None,
                by_minute: None,
                by_hour: None,
                by_week_day: None,
                by_month_day: None,
                by_year_day: None,
                by_week_no: None,
                by_month: None,
                by_set_pos: None,
                week_start: None,
            },
        };
        proof {
            assert(b.rec_spec() =~= spec_recur_new(freq));
        }
        b
    }

    /// Set one part, rejecting a part already set.
    pub fn set_param(&mut self, param: Param) -> (r: Result<(), ParserError>)
        ensures
            match spec_set_param(old(self).rec_spec(), param@) {
                Ok(rv) => r is Ok && final(self).rec_spec() == rv,
                Err(e) => r matches Err(x) && x == e && final(self).rec_spec() == old(
                    self,
                ).rec_spec(),
            },
    {
        let ghost pre = self.rec_spec();
        match param {
            Param::End(end) => {
                if !(matches!(self.rec.end, End::Forever)) {
                    return Err(ParserError { kind: ParserErrorKind::DuplicateRecurPart { part: RecurPart::End } });
                }
                self.rec.end = end;
                proof {
                    assert(self.rec_spec() =~= (RecurV { end, ..pre }));
                }
                Ok(())
            },
            Param::Interval(v) => {
                if self.rec.interval.is_some() {
                    return Err(ParserError { kind: ParserErrorKind::DuplicateRecurPart { part: RecurPart::Interval } });
                }
                self.rec.interval = Some(v);
                proof {
                    assert(self.rec_spec() =~= (RecurV { interval: Some(v), ..pre }));
                }
                Ok(())
            },
            Param::BySecond(l) => {
                if self.rec.by_second.is_some() {
                    return Err(ParserError { kind: ParserErrorKind::DuplicateRecurPart { part: RecurPart::BySecond } });
                }
                let ghost lv = l.0.elems();
                self.rec.by_second = Some(l);
                proof {
                    assert(self.rec_spec() =~= (RecurV { by_second: Some(lv), ..pre }));
                }
                Ok(())
            },
            Param::ByMinute(l) => {
                if self.rec.by_minute.is_some() {
                    return Err(ParserError { kind: ParserErrorKind::DuplicateRecurPart { part: RecurPart::ByMinute } });
                }
                let ghost lv = l.0.elems();
                self.rec.by_minute = Some(l);
                proof {
                    assert(self.rec_spec() =~= (RecurV { by_minute: Some(lv), ..pre }));
                }
                Ok(())
            },
            Param::ByHour(l) => {
                if self.rec.by_hour.is_some() {
                    return Err(ParserError { kind: ParserErrorKind::DuplicateRecurPart { part: RecurPart::ByHour } });
                }
                let ghost lv = l.0.elems();
                self.rec.by_hour = Some(l);
                proof {
                    assert(self.rec_spec() =~= (RecurV { by_hour: Some(lv), ..pre }));
                }
                Ok(())
            },
            Param::ByWeekDay(l) => {
                if self.rec.by_week_day.is_some() {
                    return Err(ParserError { kind: ParserErrorKind::DuplicateRecurPart { part: RecurPart::ByDay } });
                }
                let ghost lv = l.0.elems();
                self.rec.by_week_day = Some(l);
                proof {
                    assert(self.rec_spec() =~= (RecurV { by_week_day: Some(lv), ..pre }));
                }
                Ok(())
            },
            Param::ByMonthDay(l) => {
                if self.rec.by_month_day.is_some() {
                    return Err(ParserError { kind: ParserErrorKind::DuplicateRecurPart { part: RecurPart::ByMonthDay } });
                }
                let ghost lv = l.0.elems();
                self.rec.by_month_day = Some(l);
                proof {
                    assert(self.rec_spec() =~= (RecurV { by_month_day: Some(lv), ..pre }));
                }
                Ok(())
            },
            Param::ByYearDay(l) => {
                if self.rec.by_year_day.is_some() {
                    return Err(ParserError { kind: ParserErrorKind::DuplicateRecurPart { part: RecurPart::ByYearDay } });
                }
                let ghost lv = l.0.elems();
                self.rec.by_year_day = Some(l);
                proof {
                    assert(self.rec_spec() =~= (RecurV { by_year_day: Some(lv), ..pre }));
                }
                Ok(())
            },
            Param::ByWeekNo(l) => {
                if self.rec.by_week_no.is_some() {
                    return Err(ParserError { kind: ParserErrorKind::DuplicateRecurPart { part: RecurPart::ByWeekNo } });
                }
                let ghost lv = l.0.elems();
                self.rec.by_week_no = Some(l);
                proof {
                    assert(self.rec_spec() =~= (RecurV { by_week_no: Some(lv), ..pre }));
                }
                Ok(())
            },
            Param::ByMonth(l) => {
                if self.rec.by_month.is_some() {
                    return Err(ParserError { kind: ParserErrorKind::DuplicateRecurPart { part: RecurPart::ByMonth } });
                }
                let ghost lv = l.0.elems();
                self.rec.by_month = Some(l);
                proof {
                    assert(self.rec_spec() =~= (RecurV { by_month: Some(lv), ..pre }));
                }
                Ok(())
            },
            Param::BySetPos(l) => {
                if self.rec.by_set_pos.is_some() {
                    return Err(ParserError { kind: ParserErrorKind::DuplicateRecurPart { part: RecurPart::BySetPos } });
                }
                let ghost lv = l.0.elems();
                self.rec.by_set_pos = Some(l);
                proof {
                    assert(self.rec_spec() =~= (RecurV { by_set_pos: Some(lv), ..pre }));
                }
                Ok(())
            },
            Param::WeekStart(w) => {
                if self.rec.week_start.is_some() {
                    return Err(ParserError { kind: ParserErrorKind::DuplicateRecurPart { part: RecurPart::WeekStart } });
                }
                self.rec.week_start = Some(w);
                proof {
                    assert(self.rec_spec() =~= (RecurV { week_start: Some(w), ..pre }));
                }
                Ok(())
            },
        }
    }

    /// Finish: every combination of parts set so far is a valid rule.
    pub fn build(self) -> (r: Recur)
        ensures
            r@ == self.rec_spec(),
    {
        self.rec
    }
}

/// The `;`-separated parts of a rule, applied in order to the rule built so
/// far.
pub open spec fn recur_loop(s: Seq<u8>, r: RecurV) -> Result<RecurV, ParserError>
    decreases s.len(),
    via recur_loop_dec
{
    if s.len() == 0 {
        Ok(r)
    } else {
        let (entry, rest) = spec_split_once(s, SEMI);
        match spec_parse_recur_param(entry) {
            Err(e) => Err(e),
            Ok(p) => match spec_set_param(r, p) {
                Err(e) => Err(e),
                Ok(r2) => recur_loop(rest, r2),
            },
        }
    }
}

#[via_fn]
proof fn recur_loop_dec(s: Seq<u8>, r: RecurV) {
    crate::helpers::lemma_find_byte(s, SEMI);
}

/// A rule after its `FREQ=` marker: the frequency token up to the first
/// `;`, then the `;`-separated parts.
pub open spec fn spec_parse_recur_no_freq(s: Seq<u8>) -> Result<RecurV, ParserError> {
    let (freq_tok, rest) = spec_split_once(s, SEMI);
    match spec_parse_freq(freq_tok) {
        Err(e) => Err(e),
        Ok(f) => recur_loop(rest, spec_recur_new(f)),
    }
}

/// A full rule: it must begin with `FREQ=`, else the missing literal is
/// reported; the rest is the frequency and the parts.
pub open spec fn spec_parse_recur(s: Seq<u8>) -> Result<RecurV, ParserError> {
    if crate::helpers::spec_starts_with(s, kw_freq_eq()) {
        spec_parse_recur_no_freq(s.skip(5))
    } else {
        Err(ParserError { kind: ParserErrorKind::MissingFreq })
    }
}

impl Recur {
    /// Parse the parts after the `FREQ=` marker (the comma is used inside
    /// values, so `FREQ=` serves as the separator of whole rules).
    pub fn parse_no_freq(input: &[u8]) -> (r: Result<Recur, ParserError>)
        ensures
            match spec_parse_recur_no_freq(input@) {
                Ok(rv) => r matches Ok(rec) && rec@ == rv,
                Err(e) => r matches Err(x) && x == e,
            },
    {
        let (freq_tok, first_rest) = split_once(input, SEMI);
        let freq = match Freq::parse(freq_tok.as_slice()) {
            Ok(f) => f,
            Err(e) => {
                return Err(e);
            },
        };
        let mut builder = Builder::new(freq);
        let mut rest = first_rest;
        loop
            invariant
                spec_parse_recur_no_freq(input@) == recur_loop(rest@, builder.rec_spec()),
            decreases rest@.len(),
        {
            if rest.len() == 0 {
                return Ok(builder.build());
            }
            proof {
                crate::helpers::lemma_find_byte(rest@, SEMI);
            }
            let (entry, next) = split_once(rest.as_slice(), SEMI);
            let p = match Param::parse(entry.as_slice()) {
                Ok(p) => p,
                Err(e) => {
                    return Err(e);
                },
            };
            match builder.set_param(p) {
                Ok(()) => {},
                Err(e) => {
                    return Err(e);
                },
            }
            rest = next;
        }
    }

    /// Parse a full rule, which must begin with `FREQ=`. Any rule text that
    /// begins with anything else fails with a missing-`FREQ=` error.
    pub fn parse(input: &[u8]) -> (r: Result<Recur, ParserError>)
        ensures
            match spec_parse_recur(input@) {
                Ok(rv) => r matches Ok(rec) && rec@ == rv,
                Err(e) => r matches Err(x) && x == e,
            },
            !crate::helpers::spec_starts_with(input@, kw_freq_eq()) ==> r == Err::<
                Recur,
                ParserError,
            >(ParserError { kind: ParserErrorKind::MissingFreq }),
    {
        let fe = lit_freq_eq();
        match crate::helpers::strip_prefix(input, fe.as_slice()) {
            Some(rest) => Recur::parse_no_freq(rest),
            None => Err(ParserError { kind: ParserErrorKind::MissingFreq }),
        }
    }
}

// ---------------------------------------------------------------------------
// Rendering
// ---------------------------------------------------------------------------

/// The token of a frequency.
pub open spec fn spec_format_freq(f: Freq) -> Seq<u8> {
    match f {
        Freq::Secondly => kw_secondly(),
        Freq::Minutely => kw_minutely(),
        Freq::Hourly => kw_hourly(),
        Freq::Daily => kw_daily(),
        Freq::Weekly => kw_weekly(),
        Freq::Monthly => kw_monthly(),
        Freq::Yearly => kw_yearly(),
    }
}

/// The code of a weekday.
pub open spec fn spec_format_weekday(d: WeekDay) -> Seq<u8> {
    match d {
        WeekDay::Sunday => kw_su(),
        WeekDay::Monday => kw_mo(),
        WeekDay::Tuesday => kw_tu(),
        WeekDay::Wednesday => kw_we(),
        WeekDay::Thursday => kw_th(),
        WeekDay::Friday => kw_fr(),
        WeekDay::Saturday => kw_sa(),
    }
}

/// A signed number in decimal, `-` first when negative.
pub open spec fn spec_format_signed(v: int) -> Seq<u8> {
    if v < 0 {
        seq![HYPHEN] + crate::types::dec_digits(-v)
    } else {
        crate::types::dec_digits(v)
    }
}

/// A `,`-separated rendering of unsigned list entries.
pub open spec fn spec_format_u8_list(l: Seq<u8>) -> Seq<u8>
    decreases l.len(),
{
    if l.len() == 0 {
        Seq::<u8>::empty()
    } else if l.len() == 1 {
        crate::types::dec_digits(l[0] as int)
    } else {
        crate::types::dec_digits(l[0] as int) + seq![COMMA] + spec_format_u8_list(l.skip(1))
    }
}

/// A `,`-separated rendering of signed list entries.
pub open spec fn spec_format_signed_list(l: Seq<int>) -> Seq<u8>
    decreases l.len(),
{
    if l.len() == 0 {
        Seq::<u8>::empty()
    } else if l.len() == 1 {
        spec_format_signed(l[0])
    } else {
        spec_format_signed(l[0]) + seq![COMMA] + spec_format_signed_list(l.skip(1))
    }
}

/// A `,`-separated rendering of weekdays with optional ordinals.
pub open spec fn spec_format_wdn_list(l: Seq<WeekDayNum>) -> Seq<u8>
    decreases l.len(),
{
    let one = (match l[0].week_num {
        Some(n) => spec_format_signed(n as int),
        None => Seq::<u8>::empty(),
    }) + spec_format_weekday(l[0].weekday);
    if l.len() == 0 {
        Seq::<u8>::empty()
    } else if l.len() == 1 {
        one
    } else {
        one + seq![COMMA] + spec_format_wdn_list(l.skip(1))
    }
}

/// The minimal canonical rendering of a rule: `FREQ=` and its token, then
/// each part that is present as its `;KEY=value` pair.
pub open spec fn spec_format_recur_filters_a(r: RecurV) -> Seq<u8> {
    (match r.by_second {
        Some(l) => seq![SEMI] + kw_bysecond() + seq![EQUALS] + spec_format_u8_list(l),
        None => Seq::<u8>::empty(),
    }) + (match r.by_minute {
        Some(l) => seq![SEMI] + kw_byminute() + seq![EQUALS] + spec_format_u8_list(l),
        None => Seq::<u8>::empty(),
    }) + (match r.by_hour {
        Some(l) => seq![SEMI] + kw_byhour() + seq![EQUALS] + spec_format_u8_list(l),
        None => Seq::<u8>::empty(),
    }) + (match r.by_week_day {
        Some(l) => seq![SEMI] + kw_byday() + seq![EQUALS] + spec_format_wdn_list(l),
        None => Seq::<u8>::empty(),
    }) + (match r.by_month_day {
        Some(l) => seq![SEMI] + kw_bymonthday() + seq![EQUALS] + spec_format_signed_list(
            l.map_values(|v: i8| v as int),
        ),
        None => Seq::<u8>::empty(),
    })
}

/// The trailing filter parts: day-of-year and coarser, and the week start.
pub open spec fn spec_format_recur_filters_b(r: RecurV) -> Seq<u8> {
    (match r.by_year_day {
        Some(l) => seq![SEMI] + kw_byyearday() + seq![EQUALS] + spec_format_signed_list(
            l.map_values(|v: i16| v as int),
        ),
        None => Seq::<u8>::empty(),
    }) + (match r.by_week_no {
        Some(l) => seq![SEMI] + kw_byweekno() + seq![EQUALS] + spec_format_signed_list(
            l.map_values(|v: i8| v as int),
        ),
        None => Seq::<u8>::empty(),
    }) + (match r.by_month {
        Some(l) => seq![SEMI] + kw_bymonth() + seq![EQUALS] + spec_format_u8_list(l),
        None => Seq::<u8>::empty(),
    }) + (match r.by_set_pos {
        Some(l) => seq![SEMI] + kw_bysetpos() + seq![EQUALS] + spec_format_signed_list(
            l.map_values(|v: i16| v as int),
        ),
        None => Seq::<u8>::empty(),
    }) + (match r.week_start {
        Some(w) => seq![SEMI] + kw_wkst() + seq![EQUALS] + spec_format_weekday(w.0),
        None => Seq::<u8>::empty(),
    })
}

/// All the filter parts and the week start.
pub open spec fn spec_format_recur_filters(r: RecurV) -> Seq<u8> {
    spec_format_recur_filters_a(r) + spec_format_recur_filters_b(r)
}

/// The minimal canonical rendering of a rule: `FREQ=` and its token, then
/// each part that is present as its `;KEY=value` pair.
pub open spec fn spec_format_recur(r: RecurV) -> Seq<u8> {
    kw_freq_eq() + spec_format_freq(r.freq) + (match r.end {
        End::Until(v) => seq![SEMI] + kw_until() + seq![EQUALS]
            + crate::types::spec_format_date_or_datetime(v),
        End::Count(n) => seq![SEMI] + kw_count() + seq![EQUALS] + crate::types::dec_digits(
            n as int,
        ),
        End::Forever => Seq::<u8>::empty(),
    }) + (match r.interval {
        Some(iv) => seq![SEMI] + kw_interval() + seq![EQUALS] + crate::types::dec_digits(
            iv.value_spec() as int,
        ),
        None => Seq::<u8>::empty(),
    }) + spec_format_recur_filters(r)
}

/// Render a signed number in decimal.
fn format_signed(v: i64) -> (r: Vec<u8>)
    requires
        -4294967295 <= v <= 4294967295,
    ensures
        r@ == spec_format_signed(v as int),
{
    if v < 0 {
        let mut out: Vec<u8> = Vec::new();
        out.push(HYPHEN);
        let mut d = crate::types::format_u32((-v) as u32);
        out.append(&mut d);
        proof {
            assert(out@ =~= spec_format_signed(v as int));
        }
        out
    } else {
        crate::types::format_u32(v as u32)
    }
}

impl Freq {
    /// Render the frequency token.
    pub fn format(&self) -> (r: Vec<u8>)
        ensures
            r@ == spec_format_freq(*self),
    {
        let a: Vec<u8> = match self {
            Freq::Secondly => vstd::slice::slice_to_vec(lit_secondly().as_slice()),
            Freq::Minutely => vstd::slice::slice_to_vec(lit_minutely().as_slice()),
            Freq::Hourly => vstd::slice::slice_to_vec(lit_hourly().as_slice()),
            Freq::Daily => vstd::slice::slice_to_vec(lit_daily().as_slice()),
            Freq::Weekly => vstd::slice::slice_to_vec(lit_weekly().as_slice()),
            Freq::Monthly => vstd::slice::slice_to_vec(lit_monthly().as_slice()),
            Freq::Yearly => vstd::slice::slice_to_vec(lit_yearly().as_slice()),
        };
        a
    }
}

impl WeekDay {
    /// Render the weekday code.
    pub fn format(&self) -> (r: Vec<u8>)
        ensures
            r@ == spec_format_weekday(*self),
    {
        let a: Vec<u8> = match self {
            WeekDay::Sunday => vstd::slice::slice_to_vec(lit_su().as_slice()),
            WeekDay::Monday => vstd::slice::slice_to_vec(lit_mo().as_slice()),
            WeekDay::Tuesday => vstd::slice::slice_to_vec(lit_tu().as_slice()),
            WeekDay::Wednesday => vstd::slice::slice_to_vec(lit_we().as_slice()),
            WeekDay::Thursday => vstd::slice::slice_to_vec(lit_th().as_slice()),
            WeekDay::Friday => vstd::slice::slice_to_vec(lit_fr().as_slice()),
            WeekDay::Saturday => vstd::slice::slice_to_vec(lit_sa().as_slice()),
        };
        a
    }
}

/// Render an unsigned list joined by `,`.
fn format_u8_list(l: &VecOne<u8>) -> (r: Vec<u8>)
    ensures
        r@ == spec_format_u8_list(l.elems()),
{
    let ghost el = l.elems();
    let mut out = crate::types::format_u32(l.first as u32);
    proof {
        assert(el.skip(1) =~= l.rest@);
        if l.rest@.len() == 0 {
            assert(out@ =~= spec_format_u8_list(el));
        }
    }
    let n = l.rest.len();
    let mut i: usize = 0;
    while i < n
        invariant
            n == l.rest@.len(),
            0 <= i <= n,
            el == l.elems(),
            el.len() == n + 1,
            el[0] == l.first,
            forall|j: int| 0 <= j < n ==> el[j + 1] == (#[trigger] l.rest@[j]),
            out@ == spec_format_u8_list(el.take(i as int + 1)),
        decreases n - i,
    {
        proof {
            lemma_format_u8_list_snoc(el, i as int + 1);
        }
        out.push(COMMA);
        let mut d = crate::types::format_u32(l.rest[i] as u32);
        out.append(&mut d);
        proof {
            assert(out@ =~= spec_format_u8_list(el.take(i as int + 2)));
        }
        i += 1;
    }
    proof {
        assert(el.take(n as int + 1) =~= el);
    }
    out
}

/// One more entry extends the rendered list at the back.
proof fn lemma_format_u8_list_snoc(l: Seq<u8>, k: int)
    requires
        1 <= k < l.len(),
    ensures
        spec_format_u8_list(l.take(k + 1)) == spec_format_u8_list(l.take(k)) + seq![COMMA]
            + crate::types::dec_digits(l[k] as int),
    decreases k,
{
    if k == 1 {
        assert(l.take(2)[0] == l[0]);
        assert(l.take(2).skip(1) =~= seq![l[1]]);
        assert(spec_format_u8_list(seq![l[1]]) == crate::types::dec_digits(l[1] as int));
        assert(l.take(1) =~= seq![l[0]]);
        assert(spec_format_u8_list(l.take(2)) =~= spec_format_u8_list(l.take(1)) + seq![COMMA]
            + crate::types::dec_digits(l[1] as int));
    } else {
        lemma_format_u8_list_snoc(l.skip(1), k - 1);
        assert(l.take(k + 1)[0] == l[0]);
        assert(l.take(k + 1).skip(1) =~= l.skip(1).take(k));
        assert(l.take(k)[0] == l[0]);
        assert(l.take(k).skip(1) =~= l.skip(1).take(k - 1));
        assert(l.skip(1)[k - 1] == l[k]);
        assert(spec_format_u8_list(l.take(k + 1)) == crate::types::dec_digits(l[0] as int) + seq![
            COMMA,
        ] + spec_format_u8_list(l.skip(1).take(k)));
        assert(crate::types::dec_digits(l[0] as int) + seq![COMMA] + (spec_format_u8_list(
            l.skip(1).take(k - 1),
        ) + seq![COMMA] + crate::types::dec_digits(l[k] as int)) =~= (crate::types::dec_digits(
            l[0] as int,
        ) + seq![COMMA] + spec_format_u8_list(l.skip(1).take(k - 1))) + seq![COMMA]
            + crate::types::dec_digits(l[k] as int));
    }
}

/// One more entry extends the rendered signed list at the back.
proof fn lemma_format_signed_list_snoc(l: Seq<int>, k: int)
    requires
        1 <= k < l.len(),
    ensures
        spec_format_signed_list(l.take(k + 1)) == spec_format_signed_list(l.take(k)) + seq![COMMA]
            + spec_format_signed(l[k]),
    decreases k,
{
    if k == 1 {
        assert(l.take(2)[0] == l[0]);
        assert(l.take(2).skip(1) =~= seq![l[1]]);
        assert(spec_format_signed_list(seq![l[1]]) == spec_format_signed(l[1]));
        assert(l.take(1) =~= seq![l[0]]);
        assert(spec_format_signed_list(l.take(2)) =~= spec_format_signed_list(l.take(1)) + seq![
            COMMA,
        ] + spec_format_signed(l[1]));
    } else {
        lemma_format_signed_list_snoc(l.skip(1), k - 1);
        assert(l.take(k + 1)[0] == l[0]);
        assert(l.take(k + 1).skip(1) =~= l.skip(1).take(k));
        assert(l.take(k)[0] == l[0]);
        assert(l.take(k).skip(1) =~= l.skip(1).take(k - 1));
        assert(l.skip(1)[k - 1] == l[k]);
        assert(spec_format_signed_list(l.take(k + 1)) == spec_format_signed(l[0]) + seq![COMMA]
            + spec_format_signed_list(l.skip(1).take(k)));
        assert(spec_format_signed(l[0]) + seq![COMMA] + (spec_format_signed_list(
            l.skip(1).take(k - 1),
        ) + seq![COMMA] + spec_format_signed(l[k])) =~= (spec_format_signed(l[0]) + seq![COMMA]
            + spec_format_signed_list(l.skip(1).take(k - 1))) + seq![COMMA] + spec_format_signed(
            l[k],
        ));
    }
}

/// Render a signed list joined by `,`.
fn format_signed_list(first: i64, rest: &Vec<i64>, Ghost(el): Ghost<Seq<int>>) -> (r: Vec<u8>)
    requires
        el.len() == rest@.len() + 1,
        el[0] == first as int,
        forall|j: int| 0 <= j < rest@.len() ==> el[j + 1] == (#[trigger] rest@[j]) as int,
        -4294967295 <= first <= 4294967295,
        forall|j: int| 0 <= j < rest@.len() ==> -4294967295 <= (#[trigger] rest@[j]) <= 4294967295,
    ensures
        r@ == spec_format_signed_list(el),
{
    let mut out = format_signed(first);
    proof {
        if rest@.len() == 0 {
            assert(el =~= seq![first as int]);
        }
        assert(el.take(1) =~= seq![el[0]]);
    }
    let n = rest.len();
    let mut i: usize = 0;
    while i < n
        invariant
            n == rest@.len(),
            0 <= i <= n,
            el.len() == n + 1,
            el[0] == first as int,
            forall|j: int| 0 <= j < n ==> el[j + 1] == (#[trigger] rest@[j]) as int,
            forall|j: int| 0 <= j < n ==> -4294967295 <= (#[trigger] rest@[j]) <= 4294967295,
            out@ == spec_format_signed_list(el.take(i as int + 1)),
        decreases n - i,
    {
        proof {
            lemma_format_signed_list_snoc(el, i as int + 1);
        }
        out.push(COMMA);
        let mut d = format_signed(rest[i]);
        out.append(&mut d);
        proof {
            assert(out@ =~= spec_format_signed_list(el.take(i as int + 2)));
        }
        i += 1;
    }
    proof {
        assert(el.take(n as int + 1) =~= el);
    }
    out
}

/// One more entry extends the rendered weekday list at the back.
#[verifier::rlimit(50)]
#[verifier::spinoff_prover]
proof fn lemma_format_wdn_list_snoc(l: Seq<WeekDayNum>, k: int)
    requires
        1 <= k < l.len(),
    ensures
        spec_format_wdn_list(l.take(k + 1)) == spec_format_wdn_list(l.take(k)) + seq![COMMA] + (
        match l[k].week_num {
            Some(n) => spec_format_signed(n as int),
            None => Seq::<u8>::empty(),
        }) + spec_format_weekday(l[k].weekday),
    decreases k,
{
    if k == 1 {
        assert(l.take(2)[0] == l[0]);
        assert(l.take(2).skip(1) =~= seq![l[1]]);
        assert(l.take(1) =~= seq![l[0]]);
        assert(seq![l[1]][0] == l[1]);
        let one1 = (match l[1].week_num {
            Some(n) => spec_format_signed(n as int),
            None => Seq::<u8>::empty(),
        }) + spec_format_weekday(l[1].weekday);
        assert(spec_format_wdn_list(seq![l[1]]) == one1);
        assert(spec_format_wdn_list(l.take(2)) =~= spec_format_wdn_list(l.take(1)) + seq![COMMA]
            + one1);
    } else {
        lemma_format_wdn_list_snoc(l.skip(1), k - 1);
        assert(l.take(k + 1)[0] == l[0]);
        assert(l.take(k + 1).skip(1) =~= l.skip(1).take(k));
        assert(l.take(k)[0] == l[0]);
        assert(l.take(k).skip(1) =~= l.skip(1).take(k - 1));
        assert(l.skip(1)[k - 1] == l[k]);
        let one0 = (match l[0].week_num {
            Some(n) => spec_format_signed(n as int),
            None => Seq::<u8>::empty(),
        }) + spec_format_weekday(l[0].weekday);
        let onek = (match l[k].week_num {
            Some(n) => spec_format_signed(n as int),
            None => Seq::<u8>::empty(),
        }) + spec_format_weekday(l[k].weekday);
        assert(spec_format_wdn_list(l.take(k + 1)) == one0 + seq![COMMA] + spec_format_wdn_list(
            l.skip(1).take(k),
        ));
        assert(one0 + seq![COMMA] + (spec_format_wdn_list(l.skip(1).take(k - 1)) + seq![COMMA]
            + onek) =~= (one0 + seq![COMMA] + spec_format_wdn_list(l.skip(1).take(k - 1))) + seq![
            COMMA,
        ] + onek);
    }
}

/// Render one weekday with its optional ordinal.
fn format_wdn(w: &WeekDayNum) -> (r: Vec<u8>)
    ensures
        r@ == (match w.week_num {
            Some(n) => spec_format_signed(n as int),
            None => Seq::<u8>::empty(),
        }) + spec_format_weekday(w.weekday),
{
    let mut out: Vec<u8> = Vec::new();
    match w.week_num {
        Some(n) => {
            let mut d = format_signed(n as i64);
            out.append(&mut d);
        },
        None => {},
    }
    let mut c = w.weekday.format();
    out.append(&mut c);
    proof {
        assert(out@ =~= (match w.week_num {
            Some(n) => spec_format_signed(n as int),
            None => Seq::<u8>::empty(),
        }) + spec_format_weekday(w.weekday));
    }
    out
}

/// Render a weekday list joined by `,`.
fn format_wdn_list(l: &VecOne<WeekDayNum>) -> (r: Vec<u8>)
    ensures
        r@ == spec_format_wdn_list(l.elems()),
{
    let ghost el = l.elems();
    let mut out = format_wdn(&l.first);
    proof {
        if l.rest@.len() == 0 {
            assert(el =~= seq![l.first]);
        }
        assert(el.take(1) =~= seq![el[0]]);
        assert(el[0] == l.first);
    }
    let n = l.rest.len();
    let mut i: usize = 0;
    while i < n
        invariant
            n == l.rest@.len(),
            0 <= i <= n,
            el == l.elems(),
            el.len() == n + 1,
            el[0] == l.first,
            forall|j: int| 0 <= j < n ==> el[j + 1] == (#[trigger] l.rest@[j]),
            out@ == spec_format_wdn_list(el.take(i as int + 1)),
        decreases n - i,
    {
        proof {
            lemma_format_wdn_list_snoc(el, i as int + 1);
        }
        out.push(COMMA);
        let mut d = format_wdn(&l.rest[i]);
        out.append(&mut d);
        proof {
            assert(out@ =~= spec_format_wdn_list(el.take(i as int + 2)));
        }
        i += 1;
    }
    proof {
        assert(el.take(n as int + 1) =~= el);
    }
    out
}

/// Render a signed byte list joined by `,`.
fn format_i8_list(l: &VecOne<i8>) -> (r: Vec<u8>)
    ensures
        r@ == spec_format_signed_list(l.elems().map_values(|v: i8| v as int)),
{
    let ghost el = l.elems().map_values(|v: i8| v as int);
    let mut rest: Vec<i64> = Vec::new();
    let n = l.rest.len();
    let mut i: usize = 0;
    while i < n
        invariant
            n == l.rest@.len(),
            0 <= i <= n,
            rest@.len() == i,
            forall|j: int| 0 <= j < i ==> (#[trigger] rest@[j]) == l.rest@[j] as int,
        decreases n - i,
    {
        rest.push(l.rest[i] as i64);
        i += 1;
    }
    proof {
        assert(el.len() == n + 1);
        assert(el[0] == l.first as int);
        assert forall|j: int| 0 <= j < rest@.len() implies el[j + 1] == (
        #[trigger] rest@[j]) as int by {
            assert(el[j + 1] == l.elems()[j + 1] as int);
        }
    }
    format_signed_list(l.first as i64, &rest, Ghost(el))
}

/// Render a signed short list joined by `,`.
fn format_i16_list(l: &VecOne<i16>) -> (r: Vec<u8>)
    ensures
        r@ == spec_format_signed_list(l.elems().map_values(|v: i16| v as int)),
{
    let ghost el = l.elems().map_values(|v: i16| v as int);
    let mut rest: Vec<i64> = Vec::new();
    let n = l.rest.len();
    let mut i: usize = 0;
    while i < n
        invariant
            n == l.rest@.len(),
            0 <= i <= n,
            rest@.len() == i,
            forall|j: int| 0 <= j < i ==> (#[trigger] rest@[j]) == l.rest@[j] as int,
        decreases n - i,
    {
        rest.push(l.rest[i] as i64);
        i += 1;
    }
    proof {
        assert(el.len() == n + 1);
        assert(el[0] == l.first as int);
        assert forall|j: int| 0 <= j < rest@.len() implies el[j + 1] == (
        #[trigger] rest@[j]) as int by {
            assert(el[j + 1] == l.elems()[j + 1] as int);
        }
    }
    format_signed_list(l.first as i64, &rest, Ghost(el))
}

/// Append `;KEY=` for one rule part.
fn push_key(out: &mut Vec<u8>, key: &[u8], Ghost(kw): Ghost<Seq<u8>>)
    requires
        key@ == kw,
    ensures
        final(out)@ == old(out)@ + seq![SEMI] + kw + seq![EQUALS],
{
    out.push(SEMI);
    out.extend_from_slice(key);
    out.push(EQUALS);
    proof {
        assert(out@ =~= old(out)@ + seq![SEMI] + kw + seq![EQUALS]);
    }
}

impl Recur {
    /// Render the minimal canonical shape: `FREQ=` and its token, then each
    /// part that is present as its `;KEY=value` pair, in a fixed order.
    #[verifier::rlimit(100)]
    #[verifier::spinoff_prover]
    pub fn format(&self) -> (r: Vec<u8>)
        requires
            (self@.end matches End::Until(v) ==> v.wf()),
        ensures
            r@ == spec_format_recur(self@),
    {
        let ghost rv = self@;
        let mut out: Vec<u8> = Vec::new();
        let fe = lit_freq_eq();
        out.extend_from_slice(fe.as_slice());
        let mut f = self.freq.format();
        out.append(&mut f);
        let ghost p1 = kw_freq_eq() + spec_format_freq(rv.freq);
        proof {
            assert(out@ =~= p1);
        }
        match &self.end {
            End::Until(v) => {
                let u = lit_until();
                push_key(&mut out, u.as_slice(), Ghost(kw_until()));
                let mut d = v.format();
                out.append(&mut d);
            },
            End::Count(n) => {
                let c = lit_count();
                push_key(&mut out, c.as_slice(), Ghost(kw_count()));
                let mut d = crate::types::format_u32(*n);
                out.append(&mut d);
            },
            End::Forever => {},
        }
        let ghost p2 = p1 + (match rv.end {
            End::Until(v) => seq![SEMI] + kw_until() + seq![EQUALS]
                + crate::types::spec_format_date_or_datetime(v),
            End::Count(n) => seq![SEMI] + kw_count() + seq![EQUALS] + crate::types::dec_digits(
                n as int,
            ),
            End::Forever => Seq::<u8>::empty(),
        });
        proof {
            assert(out@ =~= p2);
        }
        match &self.interval {
            Some(iv) => {
                let c = lit_interval();
                push_key(&mut out, c.as_slice(), Ghost(kw_interval()));
                let mut d = crate::types::format_u32(iv.0);
                out.append(&mut d);
            },
            None => {},
        }
        let ghost p3 = p2 + (match rv.interval {
            Some(iv) => seq![SEMI] + kw_interval() + seq![EQUALS] + crate::types::dec_digits(
                iv.value_spec() as int,
            ),
            None => Seq::<u8>::empty(),
        });
        proof {
            assert(out@ =~= p3);
        }
        let out2 = Self::format_filters(self, out);
        proof {
            assert(spec_format_recur(rv) =~= p3 + spec_format_recur_filters(rv));
        }
        out2
    }

    /// Append the nine filter parts and the week start, each when present.
    fn format_filters(&self, out: Vec<u8>) -> (r: Vec<u8>)
        ensures
            r@ == out@ + spec_format_recur_filters(self@),
    {
        let ghost p0 = out@;
        let out1 = Self::format_filters_a(self, out);
        let out2 = Self::format_filters_b(self, out1);
        proof {
            assert(out2@ =~= p0 + spec_format_recur_filters(self@));
        }
        out2
    }

    /// Append the second, minute, hour, weekday and month-day filters.
    #[verifier::rlimit(100)]
    #[verifier::spinoff_prover]
    fn format_filters_a(&self, out: Vec<u8>) -> (r: Vec<u8>)
        ensures
            r@ == out@ + spec_format_recur_filters_a(self@),
    {
        let ghost p0 = out@;
        let mut out = out;
        push_by_second(&mut out, &self.by_second);
        push_by_minute(&mut out, &self.by_minute);
        push_by_hour(&mut out, &self.by_hour);
        push_by_week_day(&mut out, &self.by_week_day);
        push_by_month_day(&mut out, &self.by_month_day);
        proof {
            assert(out@ =~= p0 + spec_format_recur_filters_a(self@));
        }
        out
    }

    /// Append the year-day, week-number, month and set-position filters and
    /// the week start.
    #[verifier::rlimit(100)]
    #[verifier::spinoff_prover]
    fn format_filters_b(&self, out: Vec<u8>) -> (r: Vec<u8>)
        ensures
            r@ == out@ + spec_format_recur_filters_b(self@),
    {
        let ghost p0 = out@;
        let mut out = out;
        push_by_year_day(&mut out, &self.by_year_day);
        push_by_week_no(&mut out, &self.by_week_no);
        push_by_month(&mut out, &self.by_month);
        push_by_set_pos(&mut out, &self.by_set_pos);
        push_week_start(&mut out, &self.week_start);
        proof {
            assert(out@ =~= p0 + spec_format_recur_filters_b(self@));
        }
        out
    }
}

/// Append the `BYSECOND=` part when present.
fn push_by_second(out: &mut Vec<u8>, v: &Option<BySecond>)
    ensures
        final(out)@ == old(out)@ + (match v {
            Some(l) => seq![SEMI] + kw_bysecond() + seq![EQUALS] + spec_format_u8_list(
                l.0.elems(),
            ),
            None => Seq::<u8>::empty(),
        }),
{
    match v {
        Some(l) => {
            let c = lit_bysecond();
            push_key(out, c.as_slice(), Ghost(kw_bysecond()));
            let mut d = format_u8_list(&l.0);
            out.append(&mut d);
        },
        None => {
            proof {
                assert(out@ =~= old(out)@ + Seq::<u8>::empty());
            }
        },
    }
}

/// Append the `BYMINUTE=` part when present.
fn push_by_minute(out: &mut Vec<u8>, v: &Option<ByMinute>)
    ensures
        final(out)@ == old(out)@ + (match v {
            Some(l) => seq![SEMI] + kw_byminute() + seq![EQUALS] + spec_format_u8_list(
                l.0.elems(),
            ),
            None => Seq::<u8>::empty(),
        }),
{
    match v {
        Some(l) => {
            let c = lit_byminute();
            push_key(out, c.as_slice(), Ghost(kw_byminute()));
            let mut d = format_u8_list(&l.0);
            out.append(&mut d);
        },
        None => {
            proof {
                assert(out@ =~= old(out)@ + Seq::<u8>::empty());
            }
        },
    }
}

/// Append the `BYHOUR=` part when present.
fn push_by_hour(out: &mut Vec<u8>, v: &Option<ByHour>)
    ensures
        final(out)@ == old(out)@ + (match v {
            Some(l) => seq![SEMI] + kw_byhour() + seq![EQUALS] + spec_format_u8_list(l.0.elems()),
            None => Seq::<u8>::empty(),
        }),
{
    match v {
        Some(l) => {
            let c = lit_byhour();
            push_key(out, c.as_slice(), Ghost(kw_byhour()));
            let mut d = format_u8_list(&l.0);
            out.append(&mut d);
        },
        None => {
            proof {
                assert(out@ =~= old(out)@ + Seq::<u8>::empty());
            }
        },
    }
}

/// Append the `BYDAY=` part when present.
fn push_by_week_day(out: &mut Vec<u8>, v: &Option<ByWeekDay>)
    ensures
        final(out)@ == old(out)@ + (match v {
            Some(l) => seq![SEMI] + kw_byday() + seq![EQUALS] + spec_format_wdn_list(l.0.elems()),
            None => Seq::<u8>::empty(),
        }),
{
    match v {
        Some(l) => {
            let c = lit_byday();
            push_key(out, c.as_slice(), Ghost(kw_byday()));
            let mut d = format_wdn_list(&l.0);
            out.append(&mut d);
        },
        None => {
            proof {
                assert(out@ =~= old(out)@ + Seq::<u8>::empty());
            }
        },
    }
}

/// Append the `BYMONTHDAY=` part when present.
fn push_by_month_day(out: &mut Vec<u8>, v: &Option<ByMonthDay>)
    ensures
        final(out)@ == old(out)@ + (match v {
            Some(l) => seq![SEMI] + kw_bymonthday() + seq![EQUALS] + spec_format_signed_list(
                l.0.elems().map_values(|x: i8| x as int),
            ),
            None => Seq::<u8>::empty(),
        }),
{
    match v {
        Some(l) => {
            let c = lit_bymonthday();
            push_key(out, c.as_slice(), Ghost(kw_bymonthday()));
            let mut d = format_i8_list(&l.0);
            out.append(&mut d);
        },
        None => {
            proof {
                assert(out@ =~= old(out)@ + Seq::<u8>::empty());
            }
        },
    }
}

/// Append the `BYYEARDAY=` part when present.
fn push_by_year_day(out: &mut Vec<u8>, v: &Option<ByYearDay>)
    ensures
        final(out)@ == old(out)@ + (match v {
            Some(l) => seq![SEMI] + kw_byyearday() + seq![EQUALS] + spec_format_signed_list(
                l.0.elems().map_values(|x: i16| x as int),
            ),
            None => Seq::<u8>::empty(),
        }),
{
    match v {
        Some(l) => {
            let c = lit_byyearday();
            push_key(out, c.as_slice(), Ghost(kw_byyearday()));
            let mut d = format_i16_list(&l.0);
            out.append(&mut d);
        },
        None => {
            proof {
                assert(out@ =~= old(out)@ + Seq::<u8>::empty());
            }
        },
    }
}

/// Append the `BYWEEKNO=` part when present.
fn push_by_week_no(out: &mut Vec<u8>, v: &Option<ByWeekNo>)
    ensures
        final(out)@ == old(out)@ + (match v {
            Some(l) => seq![SEMI] + kw_byweekno() + seq![EQUALS] + spec_format_signed_list(
                l.0.elems().map_values(|x: i8| x as int),
            ),
            None => Seq::<u8>::empty(),
        }),
{
    match v {
        Some(l) => {
            let c = lit_byweekno();
            push_key(out, c.as_slice(), Ghost(kw_byweekno()));
            let mut d = format_i8_list(&l.0);
            out.append(&mut d);
        },
        None => {
            proof {
                assert(out@ =~= old(out)@ + Seq::<u8>::empty());
            }
        },
    }
}

/// Append the `BYMONTH=` part when present.
fn push_by_month(out: &mut Vec<u8>, v: &Option<ByMonth>)
    ensures
        final(out)@ == old(out)@ + (match v {
            Some(l) => seq![SEMI] + kw_bymonth() + seq![EQUALS] + spec_format_u8_list(l.0.elems()),
            None => Seq::<u8>::empty(),
        }),
{
    match v {
        Some(l) => {
            let c = lit_bymonth();
            push_key(out, c.as_slice(), Ghost(kw_bymonth()));
            let mut d = format_u8_list(&l.0);
            out.append(&mut d);
        },
        None => {
            proof {
                assert(out@ =~= old(out)@ + Seq::<u8>::empty());
            }
        },
    }
}

/// Append the `BYSETPOS=` part when present.
fn push_by_set_pos(out: &mut Vec<u8>, v: &Option<BySetPos>)
    ensures
        final(out)@ == old(out)@ + (match v {
            Some(l) => seq![SEMI] + kw_bysetpos() + seq![EQUALS] + spec_format_signed_list(
                l.0.elems().map_values(|x: i16| x as int),
            ),
            None => Seq::<u8>::empty(),
        }),
{
    match v {
        Some(l) => {
            let c = lit_bysetpos();
            push_key(out, c.as_slice(), Ghost(kw_bysetpos()));
            let mut d = format_i16_list(&l.0);
            out.append(&mut d);
        },
        None => {
            proof {
                assert(out@ =~= old(out)@ + Seq::<u8>::empty());
            }
        },
    }
}

/// Append the `WKST=` part when present.
fn push_week_start(out: &mut Vec<u8>, v: &Option<WeekStart>)
    ensures
        final(out)@ == old(out)@ + (match v {
            Some(w) => seq![SEMI] + kw_wkst() + seq![EQUALS] + spec_format_weekday(w.0),
            None => Seq::<u8>::empty(),
        }),
{
    match v {
        Some(w) => {
            let c = lit_wkst();
            push_key(out, c.as_slice(), Ghost(kw_wkst()));
            let mut d = w.0.format();
            out.append(&mut d);
        },
        None => {
            proof {
                assert(out@ =~= old(out)@ + Seq::<u8>::empty());
            }
        },
    }
}


/// Format/parse round trip for the minimal shape of a rule: a frequency
/// with no optional parts renders as `FREQ=` and its token and parses back
/// to the same rule.
pub proof fn lemma_recur_minimal_round_trip(f: Freq)
    ensures
        spec_parse_recur(spec_format_recur(spec_recur_new(f))) == Ok::<RecurV, ParserError>(
            spec_recur_new(f),
        ),
{
    let tok = spec_format_freq(f);
    let s = spec_format_recur(spec_recur_new(f));
    assert(s =~= kw_freq_eq() + tok);
    assert(s.take(5) =~= kw_freq_eq());
    assert(s.skip(5) =~= tok);
    assert(crate::helpers::spec_starts_with(s, kw_freq_eq()));
    assert forall|j: int| 0 <= j < tok.len() implies tok[j] != SEMI by {}
    crate::helpers::lemma_find_byte_none(tok, SEMI);
    assert(crate::helpers::spec_split_once(tok, SEMI) == (tok, Seq::<u8>::empty()));
    assert(spec_parse_freq(tok) == Ok::<Freq, ParserError>(f)) by {
        assert(kw_secondly() != kw_minutely()) by {
            assert(kw_secondly()[0] != kw_minutely()[0]);
        }
        if f is Hourly {
            assert(kw_hourly()[0] != kw_weekly()[0]);
            assert(kw_hourly()[0] != kw_yearly()[0]);
        }
        if f is Weekly {
            assert(kw_weekly()[0] != kw_hourly()[0]);
        }
        if f is Yearly {
            assert(kw_yearly()[0] != kw_hourly()[0]);
            assert(kw_yearly()[0] != kw_weekly()[0]);
        }
    }
    assert(recur_loop(Seq::<u8>::empty(), spec_recur_new(f)) == Ok::<RecurV, ParserError>(
        spec_recur_new(f),
    ));
}

} // verus!
