//! Tests of the scalar value grammars: dates, times, durations, recurrence
//! rules, escaped text, UTC offsets and priorities.

use icalendar::params::Value;
use icalendar::recur::{End, Freq, Interval, Recur, WeekDay, WeekDayNum, WeekStart};
use icalendar::types::{Date, DateOrDateTime, DateTime, Duration, DurationKind, Time};
use icalendar::values::{parse_u64_all, Priority, Text, UtcOffset};
use icalendar::vec_one::VecOne;
use icalendar::ParserErrorKind;

#[test]
fn format_date() {
    let date = Date { full_year: 500, month: 2, day: 1 };
    assert_eq!(String::from_utf8(date.format()).unwrap(), "05000201");
}

#[test]
fn date_time() {
    let input = b"20111217T152336Z";
    let (rest, parsed) = DateTime::parse(input).unwrap();
    assert_eq!(
        parsed,
        DateTime {
            date: Date { full_year: 2011, month: 12, day: 17 },
            time: Time { hour: 15, minute: 23, second: 36, utc: true },
        }
    );
    assert_eq!(rest, b"");
}

#[test]
fn recur() {
    let input = b"FREQ=YEARLY";
    let parsed = Recur::parse(input).unwrap();
    assert_eq!(
        parsed,
        Recur {
            freq: Freq::Yearly,
            end: End::Forever,
            interval: None,
            by_second: None,
            by_minute: None,
            by_hour: None,
            by_week_day: None,
            by_month_day: None,
            by_year_day: None,
            by_week_no: None,
            by_month: None,
            by_set_pos: None,
            week_start: None,
        }
    );
}

#[test]
fn recur_full_rule() {
    let input = b"FREQ=MONTHLY;COUNT=10;INTERVAL=2;BYDAY=1SU,-1MO;WKST=SU";
    let parsed = Recur::parse(input).unwrap();
    assert_eq!(parsed.freq, Freq::Monthly);
    assert_eq!(parsed.end, End::Count(10));
    assert_eq!(parsed.interval, Some(Interval(2)));
    let byday = parsed.by_week_day.unwrap();
    assert_eq!(byday.0.first, WeekDayNum { week_num: Some(1), weekday: WeekDay::Sunday });
    assert_eq!(
        byday.0.rest,
        vec![WeekDayNum { week_num: Some(-1), weekday: WeekDay::Monday }]
    );
    assert_eq!(parsed.week_start, Some(WeekStart(WeekDay::Sunday)));
}

#[test]
fn recur_format_round_trip() {
    let input = b"FREQ=MONTHLY;COUNT=10;INTERVAL=2;BYDAY=1SU,-1MO;BYMONTH=1,2;WKST=SU";
    let parsed = Recur::parse(input).unwrap();
    let rendered = parsed.format();
    assert_eq!(
        String::from_utf8(rendered.clone()).unwrap(),
        "FREQ=MONTHLY;COUNT=10;INTERVAL=2;BYDAY=1SU,-1MO;BYMONTH=1,2;WKST=SU"
    );
    let reparsed = Recur::parse(rendered.as_slice()).unwrap();
    assert_eq!(reparsed, parsed);

    let minimal = Recur::parse(b"FREQ=YEARLY").unwrap();
    assert_eq!(minimal.format(), b"FREQ=YEARLY");
}

#[test]
fn recur_needs_freq_marker() {
    // any rule text that does not begin with `FREQ=` is a missing-literal error
    let err = Recur::parse(b"COUNT=3").unwrap_err();
    assert_eq!(err.kind, ParserErrorKind::MissingFreq);
    let err = Recur::parse(b"freq=YEARLY").unwrap_err();
    assert_eq!(err.kind, ParserErrorKind::MissingFreq);
}

#[test]
fn recur_duplicate_part() {
    let err = Recur::parse(b"FREQ=DAILY;COUNT=1;COUNT=2").unwrap_err();
    assert_eq!(
        err.kind,
        ParserErrorKind::DuplicateRecurPart { part: icalendar::RecurPart::End }
    );
}

#[test]
fn recur_until_date() {
    let parsed = Recur::parse(b"FREQ=DAILY;UNTIL=20240102").unwrap();
    assert_eq!(
        parsed.end,
        End::Until(DateOrDateTime::Date(Date { full_year: 2024, month: 1, day: 2 }))
    );
}

#[test]
fn interval_must_be_positive() {
    let err = Recur::parse(b"FREQ=DAILY;INTERVAL=0").unwrap_err();
    assert_eq!(err.kind, ParserErrorKind::IntOutOfRange { min: 1, max: 0xffff_ffff, value: 0 });
}

#[test]
fn text() {
    let input = br"First text:\,\;\nsecond line\Nthird line,second item\,,";
    let text = Text::parse(input).unwrap();
    assert_eq!(
        text,
        Text(VecOne {
            first: b"First text:,;\nsecond line\nthird line".to_vec(),
            rest: vec![b"second item,".to_vec(), b"".to_vec()],
        })
    );
}

#[test]
fn text_should_fail() {
    assert!(Text::parse(b";").is_err());
    assert!(Text::parse(b"\\:").is_err());
}

#[test]
fn text_round_trip() {
    let text = Text(VecOne {
        first: b"a,b;c\\d\ne".to_vec(),
        rest: vec![b"".to_vec(), b"plain".to_vec()],
    });
    let rendered = text.format();
    assert_eq!(rendered, br"a\,b\;c\\d\ne,,plain".to_vec());
    let parsed = Text::parse(rendered.as_slice()).unwrap();
    assert_eq!(parsed, text);
}

#[test]
fn date_round_trip() {
    let date = Date { full_year: 2024, month: 2, day: 29 };
    let (rest, parsed) = Date::parse(date.format().as_slice()).unwrap();
    assert_eq!(rest, b"");
    assert_eq!(parsed, date);
}

#[test]
fn leap_day_needs_leap_year() {
    // 2024 is divisible by four, 2023 is not
    let (rest, parsed) = Date::parse(b"20240229").unwrap();
    assert_eq!(rest, b"");
    assert_eq!(parsed, Date { full_year: 2024, month: 2, day: 29 });

    let err = Date::parse(b"20230229").unwrap_err();
    assert_eq!(err.kind, ParserErrorKind::IntOutOfRange { min: 1, max: 28, value: 29 });
}

#[test]
fn time_round_trip() {
    let time = Time { hour: 23, minute: 59, second: 60, utc: true };
    let (rest, parsed) = Time::parse(time.format().as_slice()).unwrap();
    assert_eq!(rest, b"");
    assert_eq!(parsed, time);

    let local = Time { hour: 0, minute: 0, second: 0, utc: false };
    let (rest, parsed) = Time::parse(local.format().as_slice()).unwrap();
    assert_eq!(rest, b"");
    assert_eq!(parsed, local);
}

#[test]
fn datetime_round_trip() {
    let dt = DateTime {
        date: Date { full_year: 1999, month: 12, day: 31 },
        time: Time { hour: 4, minute: 5, second: 6, utc: false },
    };
    let (rest, parsed) = DateTime::parse(dt.format().as_slice()).unwrap();
    assert_eq!(rest, b"");
    assert_eq!(parsed, dt);
}

#[test]
fn duration_round_trip() {
    let weeks = Duration { negative: false, kind: DurationKind::Weeks(7) };
    assert_eq!(weeks.format(), b"P7W");
    let (rest, parsed) = Duration::parse(weeks.format().as_slice()).unwrap();
    assert_eq!(rest, b"");
    assert_eq!(parsed, weeks);

    let timed = Duration {
        negative: true,
        kind: DurationKind::DateTime { days: 15, hours: 5, minutes: 0, seconds: 20 },
    };
    assert_eq!(timed.format(), b"-P15DT5H0M20S");
    let (rest, parsed) = Duration::parse(timed.format().as_slice()).unwrap();
    assert_eq!(rest, b"");
    assert_eq!(parsed, timed);
}

#[test]
fn duration_parse_forms() {
    let (rest, d) = Duration::parse(b"P15DT5H0M20S").unwrap();
    assert_eq!(rest, b"");
    assert_eq!(
        d,
        Duration {
            negative: false,
            kind: DurationKind::DateTime { days: 15, hours: 5, minutes: 0, seconds: 20 },
        }
    );

    let (rest, d) = Duration::parse(b"PT30M").unwrap();
    assert_eq!(rest, b"");
    assert_eq!(
        d,
        Duration {
            negative: false,
            kind: DurationKind::DateTime { days: 0, hours: 0, minutes: 30, seconds: 0 },
        }
    );

    let err = Duration::parse(b"15D").unwrap_err();
    assert_eq!(err.kind, ParserErrorKind::MissingLiteral { lit: b'P' });

    // the time part is optional after a day count
    let (rest, d) = Duration::parse(b"P15D").unwrap();
    assert_eq!(rest, b"");
    assert_eq!(
        d,
        Duration {
            negative: false,
            kind: DurationKind::DateTime { days: 15, hours: 0, minutes: 0, seconds: 0 },
        }
    );

    // a `T` that opens a time part must be followed by a component
    let err = Duration::parse(b"P15DT").unwrap_err();
    assert_eq!(err.kind, ParserErrorKind::Digits { min_digits: 1, max_digits: 10 });
}

#[test]
fn utc_offset_forms() {
    let off = UtcOffset::parse(b"-0500").unwrap();
    assert_eq!(off, UtcOffset { negative: true, hour: 5, minute: 0, second: 0 });

    let off = UtcOffset::parse(b"+013045").unwrap();
    assert_eq!(off, UtcOffset { negative: false, hour: 1, minute: 30, second: 45 });

    let err = UtcOffset::parse(b"0500").unwrap_err();
    assert_eq!(err.kind, ParserErrorKind::MissingLiteral { lit: b'+' });

    let err = UtcOffset::parse(b"+05004").unwrap_err();
    assert_eq!(err.kind, ParserErrorKind::Digits { min_digits: 2, max_digits: 2 });
}

#[test]
fn priority_defaults_to_medium() {
    assert_eq!(Priority::default(), Priority(5));
    assert_eq!(Priority::default().value(), 5);
}

#[test]
fn priority_saturates() {
    assert_eq!(Priority::parse(b"5").unwrap(), Priority(5));
    assert_eq!(Priority::parse(b"200").unwrap(), Priority(9));
    assert!(Priority::parse(b"1000").is_err());
    assert!(Priority::parse(b"").is_err());
}

#[test]
fn whole_string_integers() {
    assert_eq!(parse_u64_all(b"18446744073709551615").unwrap(), u64::MAX);
    let err = parse_u64_all(b"18446744073709551616").unwrap_err();
    assert_eq!(err.kind, ParserErrorKind::Overflow);
    let err = parse_u64_all(b"12x").unwrap_err();
    assert_eq!(err.kind, ParserErrorKind::TrailingInput);
    let err = parse_u64_all(b"").unwrap_err();
    assert_eq!(err.kind, ParserErrorKind::Digits { min_digits: 1, max_digits: 20 });
}

#[test]
fn time_rejects_out_of_range() {
    let err = Time::parse(b"246000").unwrap_err();
    assert_eq!(err.kind, ParserErrorKind::IntOutOfRange { min: 0, max: 23, value: 24 });
    let err = Time::parse(b"236100").unwrap_err();
    assert_eq!(err.kind, ParserErrorKind::IntOutOfRange { min: 0, max: 59, value: 61 });
    let err = Time::parse(b"230061").unwrap_err();
    assert_eq!(err.kind, ParserErrorKind::IntOutOfRange { min: 0, max: 60, value: 61 });
}

#[test]
fn datetime_needs_time_marker() {
    let err = DateTime::parse(b"20240101").unwrap_err();
    assert_eq!(err.kind, ParserErrorKind::MissingLiteral { lit: b'T' });
}

#[test]
fn declared_value_types() {
    let none: Vec<Vec<u8>> = Vec::new();
    assert_eq!(Value::parse_value(b"BINARY", &none).unwrap(), Value::Binary);
    assert_eq!(Value::parse_value(b"UTC-OFFSET", &none).unwrap(), Value::UtcOffset);
    match Value::parse_value(b"X-EXT", &none).unwrap() {
        Value::Name(n) => assert!(matches!(n, icalendar::name::Name::XName(_))),
        other => panic!("unexpected value type: {:?}", other),
    }
    let err = Value::parse_value(b"not a token", &none).unwrap_err();
    assert_eq!(err.kind, ParserErrorKind::InvalidName);
    let two = vec![b"B".to_vec()];
    let err = Value::parse_value(b"BINARY", &two).unwrap_err();
    assert_eq!(err.kind, ParserErrorKind::WrongElementCount);
}
