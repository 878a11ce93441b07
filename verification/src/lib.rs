//! Parser for calendar documents in the iCalendar (RFC 5545 style) text
//! grammar: folded physical lines are joined into logical lines, each logical
//! line is split into a name, parameters and a value, and typed scalar values
//! (dates, times, durations, recurrence rules, escaped text) are parsed and
//! assembled into calendar objects with their events.

pub mod calendar;
pub mod errors;
pub mod foreign;
pub mod helpers;
pub mod keywords;
pub mod lexer;
pub mod line;
pub mod name;
pub mod param_map;
pub mod params;
pub mod recur;
pub mod types;
pub mod unfold;
pub mod values;
pub mod vec_one;

pub use calendar::{
    parse, AnnotatedText, Attachment, Attendee, CalScale, Calendar, CalendarBuilder, Categories,
    Class, Comment, Contact, Data, Event, EventBuilder, EventEnd, EventStatus, ExceptionDateTimes,
    Organizer, RecurrenceId, TimeTransparency,
};
pub use errors::{ParserError, ParserErrorKind, PropName, RecurPart};
