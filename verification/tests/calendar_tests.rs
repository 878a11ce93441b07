//! Tests of the component assembly: whole documents, cardinality rules,
//! nested-block skipping and the properties that go through outside crates.

use icalendar::calendar::{parse, CalScale, Class, Data, EventEnd, EventStatus, TimeTransparency};
use icalendar::types::{Date, DateOrDateTime, DateTime, Time};
use icalendar::{ParserErrorKind, PropName};

#[test]
fn minimal_document() {
    let input = b"BEGIN:VCALENDAR\r\nPRODID:-//test//\r\nVERSION:2.0\r\nEND:VCALENDAR\r\n";
    let cals = parse(input).unwrap();
    assert_eq!(cals.len(), 1);
    assert_eq!(cals[0].prod_id, b"-//test//");
    assert_eq!(cals[0].events.len(), 0);
    assert_eq!(cals[0].cal_scale, CalScale::Gregorian);
    assert_eq!(cals[0].method, None);
}

#[test]
fn missing_prodid_names_the_field() {
    let input = b"BEGIN:VCALENDAR\r\nVERSION:2.0\r\nEND:VCALENDAR\r\n";
    let err = parse(input).unwrap_err();
    assert_eq!(err.kind, ParserErrorKind::MissingProp { prop: PropName::ProdId });
}

#[test]
fn empty_input_yields_no_calendars() {
    assert_eq!(parse(b"").unwrap().len(), 0);
    assert_eq!(parse(b"\r\n").unwrap().len(), 0);
    assert_eq!(parse(b"  \r\n\t\r\n").unwrap().len(), 0);
}

#[test]
fn document_must_begin_with_calendar() {
    let err = parse(b"PRODID:x\r\n").unwrap_err();
    assert_eq!(err.kind, ParserErrorKind::ExpectedBegin);
}

#[test]
fn unterminated_block_is_structural_error() {
    let input = b"BEGIN:VCALENDAR\r\nPRODID:x\r\nVERSION:2.0\r\n";
    let err = parse(input).unwrap_err();
    assert_eq!(err.kind, ParserErrorKind::UnexpectedEof);
}

#[test]
fn mismatched_end_is_structural_error() {
    let input = b"BEGIN:VCALENDAR\r\nPRODID:x\r\nEND:VTODO\r\n";
    let err = parse(input).unwrap_err();
    assert_eq!(err.kind, ParserErrorKind::MismatchedEnd);
}

#[test]
fn version_must_be_two_point_zero() {
    let input = b"BEGIN:VCALENDAR\r\nPRODID:x\r\nVERSION:1.0\r\nEND:VCALENDAR\r\n";
    let err = parse(input).unwrap_err();
    assert_eq!(err.kind, ParserErrorKind::UnknownToken);
}

#[test]
fn duplicate_prodid_is_rejected() {
    let input = b"BEGIN:VCALENDAR\r\nPRODID:x\r\nPRODID:y\r\nEND:VCALENDAR\r\n";
    let err = parse(input).unwrap_err();
    assert_eq!(err.kind, ParserErrorKind::DuplicateProp { prop: PropName::ProdId });
}

#[test]
fn event_with_fields() {
    let input = b"BEGIN:VCALENDAR\r\n\
PRODID:-//test//\r\n\
VERSION:2.0\r\n\
BEGIN:VEVENT\r\n\
UID:ev-1\r\n\
DTSTART:20240229T120000Z\r\n\
DTEND;VALUE=DATE:20240301\r\n\
SUMMARY:Lunch \r\n m\
eeting\r\n\
STATUS:CONFIRMED\r\n\
TRANSP:TRANSPARENT\r\n\
SEQ:7\r\n\
END:VEVENT\r\n\
END:VCALENDAR\r\n";
    let cals = parse(input).unwrap();
    assert_eq!(cals.len(), 1);
    let ev = &cals[0].events[0];
    assert_eq!(ev.uid, b"ev-1");
    assert_eq!(
        ev.start,
        Some(DateOrDateTime::DateTime(DateTime {
            date: Date { full_year: 2024, month: 2, day: 29 },
            time: Time { hour: 12, minute: 0, second: 0, utc: true },
        }))
    );
    match &ev.end {
        Some(EventEnd::DateTime { value, timezone_id }) => {
            assert_eq!(
                *value,
                DateOrDateTime::Date(Date { full_year: 2024, month: 3, day: 1 })
            );
            assert!(timezone_id.is_none());
        },
        other => panic!("unexpected end: {:?}", other),
    }
    // the folded summary was rejoined with its marker dropped
    assert_eq!(ev.summary.as_ref().unwrap().text, b"Lunch meeting");
    assert_eq!(ev.status, Some(EventStatus::Confirmed));
    assert_eq!(ev.time_transparency, TimeTransparency::Transparent);
    assert_eq!(ev.sequence, Some(7));
    assert_eq!(ev.class, Class::Public);
}

#[test]
fn missing_uid_names_the_field() {
    let input = b"BEGIN:VCALENDAR\r\nPRODID:x\r\nBEGIN:VEVENT\r\nEND:VEVENT\r\nEND:VCALENDAR\r\n";
    let err = parse(input).unwrap_err();
    assert_eq!(err.kind, ParserErrorKind::MissingProp { prop: PropName::Uid });
}

#[test]
fn end_and_duration_are_mutually_exclusive() {
    let input = b"BEGIN:VCALENDAR\r\nPRODID:x\r\nBEGIN:VEVENT\r\nUID:u\r\n\
DTEND:20240101T000000\r\nDURATION:PT1H\r\nEND:VEVENT\r\nEND:VCALENDAR\r\n";
    let err = parse(input).unwrap_err();
    assert_eq!(err.kind, ParserErrorKind::DuplicateProp { prop: PropName::End });
}

#[test]
fn created_must_be_utc() {
    let input = b"BEGIN:VCALENDAR\r\nPRODID:x\r\nBEGIN:VEVENT\r\nUID:u\r\n\
CREATED:20240101T000000\r\nEND:VEVENT\r\nEND:VCALENDAR\r\n";
    let err = parse(input).unwrap_err();
    assert_eq!(err.kind, ParserErrorKind::ExpectedUtc);
}

#[test]
fn unknown_blocks_are_skipped() {
    let input = b"BEGIN:VCALENDAR\r\nPRODID:x\r\n\
BEGIN:VTODO\r\nWHATEVER:1\r\nBEGIN:VALARM\r\nEND:VALARM\r\nEND:VTODO\r\n\
END:VCALENDAR\r\n";
    let cals = parse(input).unwrap();
    assert_eq!(cals.len(), 1);
    assert_eq!(cals[0].events.len(), 0);
}

#[test]
fn unknown_properties_are_ignored() {
    let input = b"BEGIN:VCALENDAR\r\nPRODID:x\r\nX-WR-CALNAME:mine\r\nEND:VCALENDAR\r\n";
    let cals = parse(input).unwrap();
    assert_eq!(cals.len(), 1);
}

#[test]
fn two_documents_in_one_buffer() {
    let input = b"BEGIN:VCALENDAR\r\nPRODID:one\r\nEND:VCALENDAR\r\n\
BEGIN:VCALENDAR\r\nPRODID:two\r\nEND:VCALENDAR\r\n";
    let cals = parse(input).unwrap();
    assert_eq!(cals.len(), 2);
    assert_eq!(cals[0].prod_id, b"one");
    assert_eq!(cals[1].prod_id, b"two");
}

#[test]
fn binary_attachment_is_decoded() {
    // `aGk=` is the base64 form of `hi`: a wrapper handing its input back
    // unchanged would fail this
    let input = b"BEGIN:VCALENDAR\r\nPRODID:x\r\nBEGIN:VEVENT\r\nUID:u\r\n\
ATTACHMENT;VALUE=BINARY;ENCODING=BASE64:aGk=\r\nEND:VEVENT\r\nEND:VCALENDAR\r\n";
    let cals = parse(input).unwrap();
    let ev = &cals[0].events[0];
    assert_eq!(ev.attachments.len(), 1);
    match &ev.attachments[0].data {
        Data::Blob(b) => assert_eq!(b, b"hi"),
        other => panic!("unexpected data: {:?}", other),
    }
}

#[test]
fn bad_base64_attachment_is_rejected() {
    let input = b"BEGIN:VCALENDAR\r\nPRODID:x\r\nBEGIN:VEVENT\r\nUID:u\r\n\
ATTACHMENT;VALUE=BINARY;ENCODING=BASE64:!!!!\r\nEND:VEVENT\r\nEND:VCALENDAR\r\n";
    let err = parse(input).unwrap_err();
    assert_eq!(err.kind, ParserErrorKind::BadBase64);
}

#[test]
fn uri_attachment_is_validated() {
    let input = b"BEGIN:VCALENDAR\r\nPRODID:x\r\nBEGIN:VEVENT\r\nUID:u\r\n\
ATTACHMENT:http://example.com/doc.txt\r\nEND:VEVENT\r\nEND:VCALENDAR\r\n";
    let cals = parse(input).unwrap();
    match &cals[0].events[0].attachments[0].data {
        Data::Uri(u) => assert_eq!(u.as_bytes(), b"http://example.com/doc.txt"),
        other => panic!("unexpected data: {:?}", other),
    }
}

#[test]
fn organizer_needs_a_uri() {
    let bad = b"BEGIN:VCALENDAR\r\nPRODID:x\r\nBEGIN:VEVENT\r\nUID:u\r\n\
ORGANIZER:not a uri\r\nEND:VEVENT\r\nEND:VCALENDAR\r\n";
    let err = parse(bad).unwrap_err();
    assert_eq!(err.kind, ParserErrorKind::BadUri);

    let good = b"BEGIN:VCALENDAR\r\nPRODID:x\r\nBEGIN:VEVENT\r\nUID:u\r\n\
ORGANIZER;CN=Boss:mailto:boss@example.com\r\nEND:VEVENT\r\nEND:VCALENDAR\r\n";
    let cals = parse(good).unwrap();
    let org = cals[0].events[0].organizer.as_ref().unwrap();
    assert_eq!(org.common_name.as_deref(), Some(b"Boss".as_slice()));
    assert_eq!(org.value.0.as_bytes(), b"mailto:boss@example.com");
}

#[test]
fn language_tags_are_validated() {
    let good = b"BEGIN:VCALENDAR\r\nPRODID:x\r\nBEGIN:VEVENT\r\nUID:u\r\n\
SUMMARY;LANGUAGE=en-US:Party\r\nEND:VEVENT\r\nEND:VCALENDAR\r\n";
    let cals = parse(good).unwrap();
    let summary = cals[0].events[0].summary.as_ref().unwrap();
    assert_eq!(summary.lang.as_ref().unwrap().as_bytes(), b"en-US");

    let bad = b"BEGIN:VCALENDAR\r\nPRODID:x\r\nBEGIN:VEVENT\r\nUID:u\r\n\
SUMMARY;LANGUAGE=not_a_tag!:Party\r\nEND:VEVENT\r\nEND:VCALENDAR\r\n";
    let err = parse(bad).unwrap_err();
    assert_eq!(err.kind, ParserErrorKind::BadLanguageTag);
}

#[test]
fn categories_are_unescaped() {
    let input = b"BEGIN:VCALENDAR\r\nPRODID:x\r\nBEGIN:VEVENT\r\nUID:u\r\n\
CATEGORIES:WORK,MEETING\\, WEEKLY\r\nEND:VEVENT\r\nEND:VCALENDAR\r\n";
    let cals = parse(input).unwrap();
    let cat = &cals[0].events[0].categories[0];
    assert_eq!(cat.values.first, b"WORK");
    assert_eq!(cat.values.rest, vec![b"MEETING, WEEKLY".to_vec()]);
}

#[test]
fn exception_dates_take_a_list() {
    let input = b"BEGIN:VCALENDAR\r\nPRODID:x\r\nBEGIN:VEVENT\r\nUID:u\r\n\
EXDATE;VALUE=DATE:20240101,20240102\r\nEND:VEVENT\r\nEND:VCALENDAR\r\n";
    let cals = parse(input).unwrap();
    let ex = &cals[0].events[0].exception_dates[0];
    assert_eq!(ex.values.first, DateOrDateTime::Date(Date { full_year: 2024, month: 1, day: 1 }));
    assert_eq!(
        ex.values.rest,
        vec![DateOrDateTime::Date(Date { full_year: 2024, month: 1, day: 2 })]
    );
}

#[test]
fn geo_is_decimal_text() {
    let input = b"BEGIN:VCALENDAR\r\nPRODID:x\r\nBEGIN:VEVENT\r\nUID:u\r\n\
GEO:37.386013;-122.082932\r\nEND:VEVENT\r\nEND:VCALENDAR\r\n";
    let cals = parse(input).unwrap();
    let geo = cals[0].events[0].geo_location.as_ref().unwrap();
    assert_eq!(geo.latitude, b"37.386013");
    assert_eq!(geo.longitude, b"-122.082932");

    let bad = b"BEGIN:VCALENDAR\r\nPRODID:x\r\nBEGIN:VEVENT\r\nUID:u\r\n\
GEO:north;south\r\nEND:VEVENT\r\nEND:VCALENDAR\r\n";
    let err = parse(bad).unwrap_err();
    assert_eq!(err.kind, ParserErrorKind::BadDecimal);
}

#[test]
fn dispatch_is_case_insensitive_in_names() {
    // property dispatch compares names without regard to ASCII case
    let input = b"begin:VCALENDAR\r\nprodid:x\r\nend:VCALENDAR\r\n";
    let cals = parse(input).unwrap();
    assert_eq!(cals[0].prod_id, b"x");
}

#[test]
fn schemeless_colon_value_is_a_plain_error() {
    // a value whose first path segment starts with a colon must come back
    // as an ordinary bad-URI error
    let input = b"BEGIN:VCALENDAR\r\nPRODID:x\r\nBEGIN:VEVENT\r\nUID:u\r\n\
ORGANIZER:://www.example.com/\r\nEND:VEVENT\r\nEND:VCALENDAR\r\n";
    let err = parse(input).unwrap_err();
    assert_eq!(err.kind, ParserErrorKind::BadUri);
}
