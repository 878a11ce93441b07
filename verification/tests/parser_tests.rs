//! Tests of the line unfolder, the splitting helpers and the content-line
//! splitter.

use icalendar::lexer::Lexer;
use icalendar::line::Line;
use icalendar::name::{Name, XName};
use icalendar::param_map::ParamMap;
use icalendar::unfold::unfold_lines;

fn lines_of(input: &str) -> Vec<String> {
    unfold_lines(input.as_bytes())
        .into_iter()
        .map(|l| String::from_utf8(l).unwrap())
        .collect()
}

#[test]
fn single_line() {
    assert_eq!(lines_of("SIMPLE:A simple line"), ["SIMPLE:A simple line"]);
}

#[test]
fn two_lines() {
    assert_eq!(lines_of("Two\r\nlines"), ["Two", "lines"]);
}

#[test]
fn single_line_with_newline() {
    assert_eq!(lines_of("Single\nline"), ["Single\nline"]);
}

#[test]
fn continue_line() {
    assert_eq!(lines_of("Line with\r\n  continuation"), ["Line with continuation"]);
}

#[test]
fn mult_continue_line() {
    assert_eq!(
        lines_of("First line\r\n  with continuation\r\nSecond line \r\nThird line wi\r\n th continuation"),
        ["First line with continuation", "Second line ", "Third line with continuation"]
    );
}

#[test]
fn split_once() {
    let (first, rest) = icalendar::helpers::split_once(b"first;second;", b';');
    assert_eq!(first, b"first");
    assert_eq!(rest, b"second;");

    let (first, rest) = icalendar::helpers::split_once(b"first second", b';');
    assert_eq!(first, b"first second");
    assert_eq!(rest, b"");
}

#[test]
fn try_split_once() {
    let (first, rest) = icalendar::helpers::try_split_once(b"first;second;", b';').unwrap();
    assert_eq!(first, b"first");
    assert_eq!(rest, b"second;");

    assert!(icalendar::helpers::try_split_once(b"first second", b';').is_none());
}

#[test]
fn split_once_outside_quotes() {
    let (first, rest) = icalendar::helpers::split_once_outside_quotes(b"first;second;", b';');
    assert_eq!(first, b"first");
    assert_eq!(rest, b"second;");

    let (first, rest) = icalendar::helpers::split_once_outside_quotes(b"first second", b';');
    assert_eq!(first, b"first second");
    assert_eq!(rest, b"");
}

#[test]
fn quoted_value_is_never_split() {
    // a delimiter inside a quoted span is not a split point
    let line = Line::parse(b"N;val1=a,b;X-aaa-val2=\"c\",d-d:actual value").unwrap();
    assert_eq!(line.params.iana.len(), 1);
    assert_eq!(line.params.extend.len(), 1);
    let (xname, vals) = &line.params.extend[0];
    assert_eq!(xname.vendor, Some([b'a', b'a', b'a']));
    assert_eq!(xname.value, b"val2");
    assert_eq!(vals.first, b"c");
    assert_eq!(vals.rest, vec![b"d-d".to_vec()]);
}

#[test]
fn pop_front_bytes() {
    let mut input = b"   test".to_vec();
    icalendar::helpers::pop_front_bytes(&mut input, 3);
    assert_eq!(input, b"test");
}

#[test]
fn parser_parse_line() {
    let input = b"param-name;val1=a,b;X-aaa-val2=\"c\",d-d:actual value";
    let output = Line::parse(input).unwrap();
    let expected = Line {
        name: Name::Iana(b"param-name".to_vec()),
        params: ParamMap::new()
            .with_values(
                Name::Iana(b"val1".to_vec()),
                vec![b"a".to_vec(), b"b".to_vec()],
            )
            .with_values(
                Name::XName(XName { vendor: Some([b'a', b'a', b'a']), value: b"val2".to_vec() }),
                vec![b"c".to_vec(), b"d-d".to_vec()],
            ),
        value: b"actual value".to_vec(),
    };
    assert_eq!(output, expected);
}

#[test]
fn parser_parse_xtension_no_vendor() {
    let input = b"X-param-name:actual value";
    let output = Line::parse(input).unwrap();
    assert_eq!(
        output,
        Line {
            name: Name::XName(XName { vendor: None, value: b"param-name".to_vec() }),
            params: ParamMap::new(),
            value: b"actual value".to_vec(),
        }
    );
}

#[test]
fn line_parse_line() {
    let input = b"param-name;val1=a,b;X-aaa-val2=\"c\",d-d:actual value";
    let expected = Line {
        name: Name::Iana(b"param-name".to_vec()),
        params: ParamMap::new()
            .with_values(
                Name::Iana(b"val1".to_vec()),
                vec![b"a".to_vec(), b"b".to_vec()],
            )
            .with_values(
                Name::XName(XName { vendor: Some([b'a', b'a', b'a']), value: b"val2".to_vec() }),
                vec![b"c".to_vec(), b"d-d".to_vec()],
            ),
        value: b"actual value".to_vec(),
    };

    // parsed from a borrowed slice
    let output = Line::parse(input).unwrap();
    assert_eq!(output, expected);

    // parsed from an owned buffer
    let owned = input.to_vec();
    let output = Line::parse(owned.as_slice()).unwrap();
    assert_eq!(output, expected);
}

#[test]
fn line_parse_xtension_no_vendor() {
    let input = b"X-param-name:actual value";
    let output = Line::parse(input).unwrap();
    assert_eq!(
        output,
        Line {
            name: Name::XName(XName { vendor: None, value: b"param-name".to_vec() }),
            params: ParamMap::new(),
            value: b"actual value".to_vec(),
        }
    );
}

#[test]
fn malformed_line_has_no_colon() {
    let err = Line::parse(b"no colon here").unwrap_err();
    assert_eq!(err.kind, icalendar::ParserErrorKind::MalformedLine);
}

#[test]
fn parameter_missing_equals() {
    let err = Line::parse(b"NAME;noequals:value").unwrap_err();
    assert_eq!(err.kind, icalendar::ParserErrorKind::ParamMissingEquals);
}

#[test]
fn invalid_name_rejected() {
    let err = Line::parse(b"bad name:value").unwrap_err();
    assert_eq!(err.kind, icalendar::ParserErrorKind::InvalidName);
}

#[test]
fn lexer_peek_does_not_consume() {
    let mut lexer = Lexer::new(b"A:1\r\nB:2\r\n");
    let peeked = lexer.next().unwrap().unwrap().clone();
    assert_eq!(peeked.value, b"1");
    // the peeked line is still there to take
    let taken = lexer.take_next().unwrap().unwrap();
    assert_eq!(taken, peeked);
    let second = lexer.next().unwrap().unwrap().clone();
    assert_eq!(second.value, b"2");
    let taken = lexer.take_next().unwrap().unwrap();
    assert_eq!(taken, second);
    assert!(lexer.next().unwrap().is_none());
    assert!(lexer.take_next().unwrap().is_none());
}
