//! Error taxonomy of the parser.
//!
//! Every failure of the library is one of these kinds; each variant carries
//! the data a caller needs to locate the problem (the offending property, the
//! declared bounds of a numeric field, the missing literal byte).

use vstd::prelude::*;

verus! {

/// A property of a calendar or event block, used to name the offender in
/// cardinality errors (a required property missing, a property seen twice).
#[derive(Debug, Clone, Copy, PartialEq, Eq, Structural)]
pub enum PropName {
    ProdId,
    Version,
    CalScale,
    Method,
    Uid,
    Class,
    Created,
    Description,
    DtStart,
    Geo,
    LastModified,
    Location,
    Organizer,
    Priority,
    DtStamp,
    Sequence,
    Status,
    Summary,
    Transp,
    RecurrenceId,
    /// The event end, set by either an explicit end or a duration
    /// (mutually exclusive, so a second setting of either is a duplicate).
    End,
}

/// A part of a recurrence rule, used to name the offender when the same part
/// is given twice in one rule.
#[derive(Debug, Clone, Copy, PartialEq, Eq, Structural)]
pub enum RecurPart {
    End,
    Interval,
    BySecond,
    ByMinute,
    ByHour,
    ByDay,
    ByMonthDay,
    ByYearDay,
    ByWeekNo,
    ByMonth,
    BySetPos,
    WeekStart,
}

/// What went wrong.
#[derive(Debug, Clone, Copy, PartialEq, Eq, Structural)]
pub enum ParserErrorKind {
    /// A logical line with no `:` separator.
    MalformedLine,
    /// A parameter with no `=` between name and value.
    ParamMissingEquals,
    /// A token that does not match the name charset, or a bad vendor id.
    InvalidName,
    /// A parameter value with broken quoting or a disallowed character.
    InvalidParamValue,
    /// A single-valued parameter was given more than one value.
    WrongElementCount,
    /// A numeric field outside its declared inclusive range.
    IntOutOfRange { min: i64, max: i64, value: i64 },
    /// A numeric field with too few digits available.
    Digits { min_digits: u32, max_digits: u32 },
    /// A required literal byte (such as the `T` of a date-time) is absent.
    MissingLiteral { lit: u8 },
    /// A recurrence rule that does not begin with `FREQ=`.
    MissingFreq,
    /// An enumerated token that is none of the known alternatives.
    UnknownToken,
    /// An unsigned number too large for its type.
    Overflow,
    /// Input left over after a value that must use the whole text.
    TrailingInput,
    /// An at-most-once property supplied twice.
    DuplicateProp { prop: PropName },
    /// A required property missing at the end of its block.
    MissingProp { prop: PropName },
    /// A recurrence-rule part supplied twice.
    DuplicateRecurPart { part: RecurPart },
    /// A parameter present on a property that allows none.
    UnexpectedParam,
    /// A document that does not begin with `BEGIN:VCALENDAR`.
    ExpectedBegin,
    /// An `END` line whose value does not match its block.
    MismatchedEnd,
    /// End of input in the middle of a block.
    UnexpectedEof,
    /// A date-time was required to be in UTC but was not.
    ExpectedUtc,
    /// A backslash escape in text followed by none of `\` `,` `;` `N` `n`,
    /// or standing at the end.
    BadEscape,
    /// A bare `;` in a text value (it must be escaped).
    UnescapedSemicolon,
    /// A coordinate or float value that is not plain decimal text.
    BadDecimal,
    /// A value that is not valid base64.
    BadBase64,
    /// A value that is not a well-formed URI.
    BadUri,
    /// A value that is not a well-formed language tag.
    BadLanguageTag,
}

/// Could not parse the input as an iCalendar document, or as one of its
/// scalar values.
#[derive(Debug, Clone, Copy, PartialEq, Eq, Structural)]
pub struct ParserError {
    pub kind: ParserErrorKind,
}

impl ParserError {
    /// The error for a numeric field outside `min..=max`.
    pub fn out_of_range(min: i64, max: i64, value: i64) -> (r: ParserError)
        ensures
            r == (ParserError { kind: ParserErrorKind::IntOutOfRange { min, max, value } }),
    {
        ParserError { kind: ParserErrorKind::IntOutOfRange { min, max, value } }
    }

    /// The error for a missing literal byte.
    pub fn tag(lit: u8) -> (r: ParserError)
        ensures
            r == (ParserError { kind: ParserErrorKind::MissingLiteral { lit } }),
    {
        ParserError { kind: ParserErrorKind::MissingLiteral { lit } }
    }

    /// The error for a numeric field with too few digits.
    pub fn take_while_m_n(min_digits: u32, max_digits: u32) -> (r: ParserError)
        ensures
            r == (ParserError { kind: ParserErrorKind::Digits { min_digits, max_digits } }),
    {
        ParserError { kind: ParserErrorKind::Digits { min_digits, max_digits } }
    }
}

} // verus!
