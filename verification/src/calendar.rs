//! The component assembly: recursive-descent parsing of a calendar document
//! into its root aggregates and their events, with per-property cardinality
//! rules.

use vstd::prelude::*;

use crate::errors::{ParserError, ParserErrorKind, PropName};
use crate::foreign::{uri_well_formed, base64_decode, Binary, CalendarUserAddress, Language, Uri};
use crate::helpers::{eq_bytes, seq_lower, valid_name_token};
use crate::keywords::{
    kw_base64, kw_binary, kw_cancelled, kw_confidential, kw_confirmed, kw_date, kw_date_time,
    kw_gregorian, kw_opaque, kw_private, kw_public, kw_tentative, kw_transparent,
    kw_two_point_zero, kw_value, kw_encoding, lit_base64, lit_binary, lit_cancelled,
    lit_confidential, lit_confirmed, lit_date, lit_date_time, lit_gregorian, lit_opaque,
    lit_private, lit_public, lit_tentative, lit_transparent, lit_two_point_zero, lit_value,
    lit_encoding, kw_altrep, kw_cn, kw_cutype, kw_delegated_from, kw_delegated_to, kw_dir,
    kw_language, kw_member, kw_partstat, kw_range, kw_role, kw_rsvp, kw_sent_by, kw_tzid,
    kw_fmttype, lit_altrep, lit_cn, lit_cutype, lit_delegated_from, lit_delegated_to, lit_dir,
    lit_language, lit_member, lit_partstat, lit_range, lit_role, lit_rsvp, lit_sent_by, lit_tzid,
    lit_fmttype,
};
use crate::line::{Line, LineV};
use crate::name::{Name, NameV, XName, XNameV};
use crate::param_map::{spec_map_take, ParamMap};
use crate::params::{
    all_uris, list_view, spec_parse_altrep, spec_parse_cutype, spec_parse_fmttype,
    spec_parse_language, spec_parse_partstat, spec_parse_range, spec_parse_role, spec_parse_rsvp,
    spec_parse_tzid, spec_single, AlternativeTextRepresentation, CalendarUserType,
    CalendarUserTypeV, CommonName, Delegatees, Delegators, DirectoryEntryReference, FormatType,
    GroupOrListMember, ParticipationRole, ParticipationRoleV, ParticipationStatus,
    ParticipationStatusV, Range, SentBy, TimeZoneIdentifier, TimeZoneIdentifierV,
};
use crate::types::{DateOrDateTime, DateTime, Duration};
use crate::values::{Priority, Text};
use crate::vec_one::VecOne;

verus! {

// ---------------------------------------------------------------------------
// Aggregate value types and their spec forms
// ---------------------------------------------------------------------------

/// The calendar scale: Gregorian unless another scale is named.
#[derive(Debug, Clone, PartialEq, Eq)]
pub enum CalScale {
    Gregorian,
    Other(Vec<u8>),
}

/// Spec-level form of a calendar scale.
#[verifier::ext_equal]
pub enum CalScaleV {
    Gregorian,
    Other(Seq<u8>),
}

impl View for CalScale {
    type V = CalScaleV;

    open spec fn view(&self) -> CalScaleV {
        match self {
            CalScale::Gregorian => CalScaleV::Gregorian,
            CalScale::Other(t) => CalScaleV::Other(t@),
        }
    }
}

/// The access classification of an event.
#[derive(Debug, Clone, PartialEq, Eq)]
pub enum Class {
    Public,
    Private,
    Confidential,
    Iana(Vec<u8>),
    XName(XName),
}

/// Spec-level form of a classification.
#[verifier::ext_equal]
pub enum ClassV {
    Public,
    Private,
    Confidential,
    Iana(Seq<u8>),
    XName(XNameV),
}

impl View for Class {
    type V = ClassV;

    open spec fn view(&self) -> ClassV {
        match self {
            Class::Public => ClassV::Public,
            Class::Private => ClassV::Private,
            Class::Confidential => ClassV::Confidential,
            Class::Iana(t) => ClassV::Iana(t@),
            Class::XName(x) => ClassV::XName(x@),
        }
    }
}

/// Text that has an optional language and alternate representation.
#[derive(Debug, Clone, PartialEq, Eq)]
pub struct AnnotatedText {
    pub lang: Option<Language>,
    pub altrep: Option<AlternativeTextRepresentation>,
    pub text: Vec<u8>,
}

/// Spec-level form of annotated text: the language tag's and URI's text.
#[verifier::ext_equal]
pub struct AnnotatedTextV {
    pub lang: Option<Seq<u8>>,
    pub altrep: Option<Seq<u8>>,
    pub text: Seq<u8>,
}

impl View for AnnotatedText {
    type V = AnnotatedTextV;

    open spec fn view(&self) -> AnnotatedTextV {
        AnnotatedTextV {
            lang: match &self.lang {
                Some(l) => Some(l.text_spec()),
                None => None,
            },
            altrep: match &self.altrep {
                Some(a) => Some(a.0.text_spec()),
                None => None,
            },
            text: self.text@,
        }
    }
}

/// The organizer of an event.
#[derive(Debug, Clone, PartialEq, Eq)]
pub struct Organizer {
    pub common_name: Option<Vec<u8>>,
    pub dir: Option<DirectoryEntryReference>,
    pub sent_by: Option<SentBy>,
    pub lang: Option<Language>,
    pub value: CalendarUserAddress,
}

/// Spec-level form of an organizer.
#[verifier::ext_equal]
pub struct OrganizerV {
    pub common_name: Option<Seq<u8>>,
    pub dir: Option<Seq<u8>>,
    pub sent_by: Option<Seq<u8>>,
    pub lang: Option<Seq<u8>>,
    pub value: Seq<u8>,
}

impl View for Organizer {
    type V = OrganizerV;

    open spec fn view(&self) -> OrganizerV {
        OrganizerV {
            common_name: match &self.common_name {
                Some(v) => Some(v@),
                None => None,
            },
            dir: match &self.dir {
                Some(d) => Some(d.0.text_spec()),
                None => None,
            },
            sent_by: match &self.sent_by {
                Some(s) => Some(s.0.0.text_spec()),
                None => None,
            },
            lang: match &self.lang {
                Some(l) => Some(l.text_spec()),
                None => None,
            },
            value: self.value.0.text_spec(),
        }
    }
}

/// The status of an event.
#[derive(Debug, Clone, Copy, PartialEq, Eq, Structural)]
pub enum EventStatus {
    Tentative,
    Confirmed,
    Cancelled,
}

/// Whether an event blocks time.
#[derive(Debug, Clone, Copy, PartialEq, Eq, Structural)]
pub enum TimeTransparency {
    Opaque,
    Transparent,
}

/// A recurrence identifier: which occurrence a change applies to.
#[derive(Debug, Clone, PartialEq, Eq)]
pub struct RecurrenceId {
    pub range: Option<Range>,
    pub timezone_id: Option<TimeZoneIdentifier>,
    pub value: DateOrDateTime,
}

/// Spec-level form of a recurrence identifier.
#[verifier::ext_equal]
pub struct RecurrenceIdV {
    pub range: Option<Range>,
    pub timezone_id: Option<TimeZoneIdentifierV>,
    pub value: DateOrDateTime,
}

impl View for RecurrenceId {
    type V = RecurrenceIdV;

    open spec fn view(&self) -> RecurrenceIdV {
        RecurrenceIdV {
            range: self.range,
            timezone_id: match &self.timezone_id {
                Some(t) => Some(t@),
                None => None,
            },
            value: self.value,
        }
    }
}

/// How an event ends: an explicit end instant, or a duration from its
/// start. The two are mutually exclusive.
#[derive(Debug, Clone, PartialEq, Eq)]
pub enum EventEnd {
    DateTime { value: DateOrDateTime, timezone_id: Option<TimeZoneIdentifier> },
    Duration(Duration),
}

/// Spec-level form of an event end.
#[verifier::ext_equal]
pub enum EventEndV {
    DateTime { value: DateOrDateTime, timezone_id: Option<TimeZoneIdentifierV> },
    Duration(Duration),
}

impl View for EventEnd {
    type V = EventEndV;

    open spec fn view(&self) -> EventEndV {
        match self {
            EventEnd::DateTime { value, timezone_id } => EventEndV::DateTime {
                value: *value,
                timezone_id: match timezone_id {
                    Some(t) => Some(t@),
                    None => None,
                },
            },
            EventEnd::Duration(d) => EventEndV::Duration(*d),
        }
    }
}

/// The payload of an attachment: a URI, or inline binary data.
#[derive(Debug, Clone, PartialEq, Eq)]
pub enum Data {
    Uri(Uri),
    Blob(Vec<u8>),
}

/// Spec-level form of an attachment payload.
#[verifier::ext_equal]
pub enum DataV {
    Uri(Seq<u8>),
    Blob(Seq<u8>),
}

impl View for Data {
    type V = DataV;

    open spec fn view(&self) -> DataV {
        match self {
            Data::Uri(u) => DataV::Uri(u.text_spec()),
            Data::Blob(b) => DataV::Blob(b@),
        }
    }
}

/// An attachment: an optional format type and the payload.
#[derive(Debug, Clone, PartialEq, Eq)]
pub struct Attachment {
    pub fmt_type: Option<FormatType>,
    pub data: Data,
}

/// Spec-level form of an attachment.
#[verifier::ext_equal]
pub struct AttachmentV {
    pub fmt_type: Option<NameV>,
    pub data: DataV,
}

impl View for Attachment {
    type V = AttachmentV;

    open spec fn view(&self) -> AttachmentV {
        AttachmentV {
            fmt_type: match &self.fmt_type {
                Some(f) => Some(f.0@),
                None => None,
            },
            data: self.data@,
        }
    }
}

impl Attachment {
    /// The inline bytes of a locally held attachment; an attachment that
    /// only points at a URI has no local data.
    pub fn data(&self) -> (r: Result<&Vec<u8>, ParserError>)
        ensures
            (self@.data matches DataV::Blob(b) ==> r matches Ok(v) && v@ == b),
            (self@.data matches DataV::Uri(_) ==> r matches Err(e) && e == (
            ParserError { kind: ParserErrorKind::UnexpectedParam })),
    {
        match &self.data {
            Data::Blob(b) => Ok(b),
            Data::Uri(_) => Err(ParserError { kind: ParserErrorKind::UnexpectedParam }),
        }
    }

    /// Whether the attachment's bytes are held inline.
    pub fn data_is_local(&self) -> (r: bool)
        ensures
            r == (self@.data matches DataV::Blob(_)),
    {
        match &self.data {
            Data::Blob(_) => true,
            Data::Uri(_) => false,
        }
    }
}

/// A participant asked to the event.
#[derive(Debug, Clone, PartialEq, Eq)]
pub struct Attendee {
    pub cutype: CalendarUserType,
    pub group_or_list_members: Vec<CalendarUserAddress>,
    pub role: ParticipationRole,
    pub participation_status: ParticipationStatus,
    pub rsvp: crate::params::RsvpExpectation,
    pub delegated_to: Vec<CalendarUserAddress>,
    pub delegated_from: Vec<CalendarUserAddress>,
    pub sent_by: Option<CalendarUserAddress>,
    pub common_name: Option<Vec<u8>>,
    pub dir: Option<DirectoryEntryReference>,
    pub lang: Option<Language>,
}

/// Spec-level form of an attendee, addresses by their text.
#[verifier::ext_equal]
pub struct AttendeeV {
    pub cutype: CalendarUserTypeV,
    pub group_or_list_members: Seq<Seq<u8>>,
    pub role: ParticipationRoleV,
    pub participation_status: ParticipationStatusV,
    pub rsvp: crate::params::RsvpExpectation,
    pub delegated_to: Seq<Seq<u8>>,
    pub delegated_from: Seq<Seq<u8>>,
    pub sent_by: Option<Seq<u8>>,
    pub common_name: Option<Seq<u8>>,
    pub dir: Option<Seq<u8>>,
    pub lang: Option<Seq<u8>>,
}

/// The address texts of a list of calendar user addresses.
pub open spec fn addr_texts(l: Seq<CalendarUserAddress>) -> Seq<Seq<u8>> {
    l.map_values(|a: CalendarUserAddress| a.0.text_spec())
}

impl View for Attendee {
    type V = AttendeeV;

    open spec fn view(&self) -> AttendeeV {
        AttendeeV {
            cutype: self.cutype@,
            group_or_list_members: addr_texts(self.group_or_list_members@),
            role: self.role@,
            participation_status: self.participation_status@,
            rsvp: self.rsvp,
            delegated_to: addr_texts(self.delegated_to@),
            delegated_from: addr_texts(self.delegated_from@),
            sent_by: match &self.sent_by {
                Some(s) => Some(s.0.text_spec()),
                None => None,
            },
            common_name: match &self.common_name {
                Some(v) => Some(v@),
                None => None,
            },
            dir: match &self.dir {
                Some(d) => Some(d.0.text_spec()),
                None => None,
            },
            lang: match &self.lang {
                Some(l) => Some(l.text_spec()),
                None => None,
            },
        }
    }
}

/// A categories list with an optional language.
#[derive(Debug, Clone, PartialEq, Eq)]
pub struct Categories {
    pub lang: Option<Language>,
    pub values: VecOne<Vec<u8>>,
}

/// Spec-level form of a categories list.
#[verifier::ext_equal]
pub struct CategoriesV {
    pub lang: Option<Seq<u8>>,
    pub values: Seq<Seq<u8>>,
}

impl View for Categories {
    type V = CategoriesV;

    open spec fn view(&self) -> CategoriesV {
        CategoriesV {
            lang: match &self.lang {
                Some(l) => Some(l.text_spec()),
                None => None,
            },
            values: list_view(self.values),
        }
    }
}

/// A comment with optional language and alternate representation.
#[derive(Debug, Clone, PartialEq, Eq)]
pub struct Comment {
    pub lang: Option<Language>,
    pub altrep: Option<AlternativeTextRepresentation>,
    pub value: Vec<u8>,
}

impl View for Comment {
    type V = AnnotatedTextV;

    open spec fn view(&self) -> AnnotatedTextV {
        AnnotatedTextV {
            lang: match &self.lang {
                Some(l) => Some(l.text_spec()),
                None => None,
            },
            altrep: match &self.altrep {
                Some(a) => Some(a.0.text_spec()),
                None => None,
            },
            text: self.value@,
        }
    }
}

/// Contact information with optional language and alternate representation.
#[derive(Debug, Clone, PartialEq, Eq)]
pub struct Contact {
    pub lang: Option<Language>,
    pub altrep: Option<AlternativeTextRepresentation>,
    pub value: Vec<u8>,
}

impl View for Contact {
    type V = AnnotatedTextV;

    open spec fn view(&self) -> AnnotatedTextV {
        AnnotatedTextV {
            lang: match &self.lang {
                Some(l) => Some(l.text_spec()),
                None => None,
            },
            altrep: match &self.altrep {
                Some(a) => Some(a.0.text_spec()),
                None => None,
            },
            text: self.value@,
        }
    }
}

/// Dates or date-times excluded from a recurrence.
#[derive(Debug, Clone, PartialEq, Eq)]
pub struct ExceptionDateTimes {
    pub timezone_id: Option<TimeZoneIdentifier>,
    pub values: VecOne<DateOrDateTime>,
}

/// Spec-level form of exception dates.
#[verifier::ext_equal]
pub struct ExceptionDateTimesV {
    pub timezone_id: Option<TimeZoneIdentifierV>,
    pub values: Seq<DateOrDateTime>,
}

impl View for ExceptionDateTimes {
    type V = ExceptionDateTimesV;

    open spec fn view(&self) -> ExceptionDateTimesV {
        ExceptionDateTimesV {
            timezone_id: match &self.timezone_id {
                Some(t) => Some(t@),
                None => None,
            },
            values: self.values.elems(),
        }
    }
}

/// One event of a calendar.
#[derive(Debug, Clone, PartialEq, Eq)]
pub struct Event {
    pub class: Class,
    pub created: Option<DateTime>,
    pub last_modified: Option<DateTime>,
    pub description: Option<AnnotatedText>,
    pub start: Option<DateOrDateTime>,
    pub location: Option<AnnotatedText>,
    pub geo_location: Option<crate::values::GeoLocation>,
    pub organizer: Option<Organizer>,
    pub priority: Option<Priority>,
    pub timestamp: Option<DateTime>,
    pub sequence: Option<u64>,
    pub status: Option<EventStatus>,
    pub summary: Option<AnnotatedText>,
    pub time_transparency: TimeTransparency,
    pub uid: Vec<u8>,
    pub recurrence_id: Option<RecurrenceId>,
    pub end: Option<EventEnd>,
    pub attachments: Vec<Attachment>,
    pub attendees: Vec<Attendee>,
    pub categories: Vec<Categories>,
    pub comments: Vec<Comment>,
    pub contacts: Vec<Contact>,
    pub exception_dates: Vec<ExceptionDateTimes>,
}

/// Spec-level form of an event.
#[verifier::ext_equal]
pub struct EventV {
    pub class: ClassV,
    pub created: Option<DateTime>,
    pub last_modified: Option<DateTime>,
    pub description: Option<AnnotatedTextV>,
    pub start: Option<DateOrDateTime>,
    pub location: Option<AnnotatedTextV>,
    pub geo_location: Option<(Seq<u8>, Seq<u8>)>,
    pub organizer: Option<OrganizerV>,
    pub priority: Option<Priority>,
    pub timestamp: Option<DateTime>,
    pub sequence: Option<u64>,
    pub status: Option<EventStatus>,
    pub summary: Option<AnnotatedTextV>,
    pub time_transparency: TimeTransparency,
    pub uid: Seq<u8>,
    pub recurrence_id: Option<RecurrenceIdV>,
    pub end: Option<EventEndV>,
    pub attachments: Seq<AttachmentV>,
    pub attendees: Seq<AttendeeV>,
    pub categories: Seq<CategoriesV>,
    pub comments: Seq<AnnotatedTextV>,
    pub contacts: Seq<AnnotatedTextV>,
    pub exception_dates: Seq<ExceptionDateTimesV>,
}

impl View for Event {
    type V = EventV;

    open spec fn view(&self) -> EventV {
        EventV {
            class: self.class@,
            created: self.created,
            last_modified: self.last_modified,
            description: match &self.description {
                Some(d) => Some(d@),
                None => None,
            },
            start: self.start,
            location: match &self.location {
                Some(d) => Some(d@),
                None => None,
            },
            geo_location: match &self.geo_location {
                Some(g) => Some((g.latitude@, g.longitude@)),
                None => None,
            },
            organizer: match &self.organizer {
                Some(o) => Some(o@),
                None => None,
            },
            priority: self.priority,
            timestamp: self.timestamp,
            sequence: self.sequence,
            status: self.status,
            summary: match &self.summary {
                Some(d) => Some(d@),
                None => None,
            },
            time_transparency: self.time_transparency,
            uid: self.uid@,
            recurrence_id: match &self.recurrence_id {
                Some(rid) => Some(rid@),
                None => None,
            },
            end: match &self.end {
                Some(e) => Some(e@),
                None => None,
            },
            attachments: self.attachments@.map_values(|a: Attachment| a@),
            attendees: self.attendees@.map_values(|a: Attendee| a@),
            categories: self.categories@.map_values(|a: Categories| a@),
            comments: self.comments@.map_values(|a: Comment| a@),
            contacts: self.contacts@.map_values(|a: Contact| a@),
            exception_dates: self.exception_dates@.map_values(|a: ExceptionDateTimes| a@),
        }
    }
}

/// A calendar: the root aggregate.
#[derive(Debug, Clone, PartialEq, Eq)]
pub struct Calendar {
    pub events: Vec<Event>,
    pub prod_id: Vec<u8>,
    pub cal_scale: CalScale,
    pub method: Option<Vec<u8>>,
}

/// Spec-level form of a calendar.
#[verifier::ext_equal]
pub struct CalendarV {
    pub events: Seq<EventV>,
    pub prod_id: Seq<u8>,
    pub cal_scale: CalScaleV,
    pub method: Option<Seq<u8>>,
}

impl View for Calendar {
    type V = CalendarV;

    open spec fn view(&self) -> CalendarV {
        CalendarV {
            events: self.events@.map_values(|e: Event| e@),
            prod_id: self.prod_id@,
            cal_scale: self.cal_scale@,
            method: match &self.method {
                Some(m) => Some(m@),
                None => None,
            },
        }
    }
}

// ---------------------------------------------------------------------------
// Typed parameter extraction
// ---------------------------------------------------------------------------

/// Take `LANGUAGE=` off the registered parameters and parse it.
pub open spec fn spec_take_language(mi: Seq<(Seq<u8>, Seq<Seq<u8>>)>) -> Result<
    (Seq<(Seq<u8>, Seq<Seq<u8>>)>, Option<Seq<u8>>),
    ParserError,
> {
    let (m2, got) = spec_map_take(mi, kw_language());
    match got {
        None => Ok((m2, None)),
        Some(vs) => match spec_parse_language(vs) {
            Err(e) => Err(e),
            Ok(t) => Ok((m2, Some(t))),
        },
    }
}

/// Take and parse `LANGUAGE=`.
fn take_language(params: &mut ParamMap) -> (r: Result<Option<Language>, ParserError>)
    ensures
        final(params).extend_view() == old(params).extend_view(),
        match spec_take_language(old(params).iana_view()) {
            Ok((m2, got)) => final(params).iana_view() == m2 && (match got {
                None => r matches Ok(o) && o is None,
                Some(t) => r matches Ok(o) && o matches Some(l) && l.text_spec() == t && l.wf(),
            }),
            Err(e) => r matches Err(x) && x == e,
        },
{
    let kb = lit_language();
    let key = Name::Iana(vstd::slice::slice_to_vec(kb.as_slice()));
    match params.take(&key) {
        None => Ok(None),
        Some(l) => match Language::parse_value(l) {
            Ok(v) => Ok(Some(v)),
            Err(e) => Err(e),
        },
    }
}

/// Take `ALTREP=` off the registered parameters and parse it.
pub open spec fn spec_take_altrep(mi: Seq<(Seq<u8>, Seq<Seq<u8>>)>) -> Result<
    (Seq<(Seq<u8>, Seq<Seq<u8>>)>, Option<Seq<u8>>),
    ParserError,
> {
    let (m2, got) = spec_map_take(mi, kw_altrep());
    match got {
        None => Ok((m2, None)),
        Some(vs) => match spec_parse_altrep(vs) {
            Err(e) => Err(e),
            Ok(t) => Ok((m2, Some(t))),
        },
    }
}

/// Take and parse `ALTREP=`.
fn take_altrep(params: &mut ParamMap) -> (r: Result<
    Option<AlternativeTextRepresentation>,
    ParserError,
>)
    ensures
        final(params).extend_view() == old(params).extend_view(),
        match spec_take_altrep(old(params).iana_view()) {
            Ok((m2, got)) => final(params).iana_view() == m2 && (match got {
                None => r matches Ok(o) && o is None,
                Some(t) => r matches Ok(o) && o matches Some(a) && a.0.text_spec() == t
                    && a.0.wf(),
            }),
            Err(e) => r matches Err(x) && x == e,
        },
{
    let kb = lit_altrep();
    let key = Name::Iana(vstd::slice::slice_to_vec(kb.as_slice()));
    match params.take(&key) {
        None => Ok(None),
        Some(l) => match AlternativeTextRepresentation::parse_value(l) {
            Ok(v) => Ok(Some(v)),
            Err(e) => Err(e),
        },
    }
}

/// Take `TZID=` off the registered parameters and parse it.
pub open spec fn spec_take_tzid(mi: Seq<(Seq<u8>, Seq<Seq<u8>>)>) -> Result<
    (Seq<(Seq<u8>, Seq<Seq<u8>>)>, Option<TimeZoneIdentifierV>),
    ParserError,
> {
    let (m2, got) = spec_map_take(mi, kw_tzid());
    match got {
        None => Ok((m2, None)),
        Some(vs) => match spec_parse_tzid(vs) {
            Err(e) => Err(e),
            Ok(t) => Ok((m2, Some(t))),
        },
    }
}

/// Take and parse `TZID=`.
fn take_tzid(params: &mut ParamMap) -> (r: Result<Option<TimeZoneIdentifier>, ParserError>)
    ensures
        final(params).extend_view() == old(params).extend_view(),
        match spec_take_tzid(old(params).iana_view()) {
            Ok((m2, got)) => final(params).iana_view() == m2 && (match got {
                None => r matches Ok(o) && o is None,
                Some(t) => r matches Ok(o) && o matches Some(a) && a@ == t,
            }),
            Err(e) => r matches Err(x) && x == e,
        },
{
    let kb = lit_tzid();
    let key = Name::Iana(vstd::slice::slice_to_vec(kb.as_slice()));
    match params.take(&key) {
        None => Ok(None),
        Some(l) => match TimeZoneIdentifier::parse_value(l) {
            Ok(v) => Ok(Some(v)),
            Err(e) => Err(e),
        },
    }
}

/// Take `RANGE=` off the registered parameters and parse it.
pub open spec fn spec_take_range(mi: Seq<(Seq<u8>, Seq<Seq<u8>>)>) -> Result<
    (Seq<(Seq<u8>, Seq<Seq<u8>>)>, Option<Range>),
    ParserError,
> {
    let (m2, got) = spec_map_take(mi, kw_range());
    match got {
        None => Ok((m2, None)),
        Some(vs) => match spec_parse_range(vs) {
            Err(e) => Err(e),
            Ok(t) => Ok((m2, Some(t))),
        },
    }
}

/// Take and parse `RANGE=`.
fn take_range(params: &mut ParamMap) -> (r: Result<Option<Range>, ParserError>)
    ensures
        final(params).extend_view() == old(params).extend_view(),
        match spec_take_range(old(params).iana_view()) {
            Ok((m2, got)) => final(params).iana_view() == m2 && (match got {
                None => r matches Ok(o) && o is None,
                Some(t) => r matches Ok(o) && o matches Some(a) && a == t,
            }),
            Err(e) => r matches Err(x) && x == e,
        },
{
    let kb = lit_range();
    let key = Name::Iana(vstd::slice::slice_to_vec(kb.as_slice()));
    match params.take(&key) {
        None => Ok(None),
        Some(l) => match Range::parse_value(l) {
            Ok(v) => Ok(Some(v)),
            Err(e) => Err(e),
        },
    }
}

/// Take `CN=` off the registered parameters.
pub open spec fn spec_take_cn(mi: Seq<(Seq<u8>, Seq<Seq<u8>>)>) -> Result<
    (Seq<(Seq<u8>, Seq<Seq<u8>>)>, Option<Seq<u8>>),
    ParserError,
> {
    let (m2, got) = spec_map_take(mi, kw_cn());
    match got {
        None => Ok((m2, None)),
        Some(vs) => match spec_single(vs) {
            Err(e) => Err(e),
            Ok(t) => Ok((m2, Some(t))),
        },
    }
}

/// Take and parse `CN=`.
fn take_cn(params: &mut ParamMap) -> (r: Result<Option<Vec<u8>>, ParserError>)
    ensures
        final(params).extend_view() == old(params).extend_view(),
        match spec_take_cn(old(params).iana_view()) {
            Ok((m2, got)) => final(params).iana_view() == m2 && (match got {
                None => r matches Ok(o) && o is None,
                Some(t) => r matches Ok(o) && o matches Some(a) && a@ == t,
            }),
            Err(e) => r matches Err(x) && x == e,
        },
{
    let kb = lit_cn();
    let key = Name::Iana(vstd::slice::slice_to_vec(kb.as_slice()));
    match params.take(&key) {
        None => Ok(None),
        Some(l) => match CommonName::parse_value(l) {
            Ok(v) => Ok(Some(v.0)),
            Err(e) => Err(e),
        },
    }
}

/// Take `DIR=` off the registered parameters and parse it.
pub open spec fn spec_take_dir(mi: Seq<(Seq<u8>, Seq<Seq<u8>>)>) -> Result<
    (Seq<(Seq<u8>, Seq<Seq<u8>>)>, Option<Seq<u8>>),
    ParserError,
> {
    let (m2, got) = spec_map_take(mi, kw_dir());
    match got {
        None => Ok((m2, None)),
        Some(vs) => match spec_parse_altrep(vs) {
            Err(e) => Err(e),
            Ok(t) => Ok((m2, Some(t))),
        },
    }
}

/// Take and parse `DIR=`.
fn take_dir(params: &mut ParamMap) -> (r: Result<Option<DirectoryEntryReference>, ParserError>)
    ensures
        final(params).extend_view() == old(params).extend_view(),
        match spec_take_dir(old(params).iana_view()) {
            Ok((m2, got)) => final(params).iana_view() == m2 && (match got {
                None => r matches Ok(o) && o is None,
                Some(t) => r matches Ok(o) && o matches Some(a) && a.0.text_spec() == t
                    && a.0.wf(),
            }),
            Err(e) => r matches Err(x) && x == e,
        },
{
    let kb = lit_dir();
    let key = Name::Iana(vstd::slice::slice_to_vec(kb.as_slice()));
    match params.take(&key) {
        None => Ok(None),
        Some(l) => match DirectoryEntryReference::parse_value(l) {
            Ok(v) => Ok(Some(v)),
            Err(e) => Err(e),
        },
    }
}

/// Take `SENT-BY=` off the registered parameters and parse it.
pub open spec fn spec_take_sent_by(mi: Seq<(Seq<u8>, Seq<Seq<u8>>)>) -> Result<
    (Seq<(Seq<u8>, Seq<Seq<u8>>)>, Option<Seq<u8>>),
    ParserError,
> {
    let (m2, got) = spec_map_take(mi, kw_sent_by());
    match got {
        None => Ok((m2, None)),
        Some(vs) => match spec_parse_altrep(vs) {
            Err(e) => Err(e),
            Ok(t) => Ok((m2, Some(t))),
        },
    }
}

/// Take and parse `SENT-BY=`.
fn take_sent_by(params: &mut ParamMap) -> (r: Result<Option<SentBy>, ParserError>)
    ensures
        final(params).extend_view() == old(params).extend_view(),
        match spec_take_sent_by(old(params).iana_view()) {
            Ok((m2, got)) => final(params).iana_view() == m2 && (match got {
                None => r matches Ok(o) && o is None,
                Some(t) => r matches Ok(o) && o matches Some(a) && a.0.0.text_spec() == t
                    && a.0.wf(),
            }),
            Err(e) => r matches Err(x) && x == e,
        },
{
    let kb = lit_sent_by();
    let key = Name::Iana(vstd::slice::slice_to_vec(kb.as_slice()));
    match params.take(&key) {
        None => Ok(None),
        Some(l) => match SentBy::parse_value(l) {
            Ok(v) => Ok(Some(v)),
            Err(e) => Err(e),
        },
    }
}

/// Take `CUTYPE=` off the registered parameters and parse it.
pub open spec fn spec_take_cutype(mi: Seq<(Seq<u8>, Seq<Seq<u8>>)>) -> Result<
    (Seq<(Seq<u8>, Seq<Seq<u8>>)>, Option<CalendarUserTypeV>),
    ParserError,
> {
    let (m2, got) = spec_map_take(mi, kw_cutype());
    match got {
        None => Ok((m2, None)),
        Some(vs) => match spec_parse_cutype(vs) {
            Err(e) => Err(e),
            Ok(t) => Ok((m2, Some(t))),
        },
    }
}

/// Take and parse `CUTYPE=`.
fn take_cutype(params: &mut ParamMap) -> (r: Result<Option<CalendarUserType>, ParserError>)
    ensures
        final(params).extend_view() == old(params).extend_view(),
        match spec_take_cutype(old(params).iana_view()) {
            Ok((m2, got)) => final(params).iana_view() == m2 && (match got {
                None => r matches Ok(o) && o is None,
                Some(t) => r matches Ok(o) && o matches Some(a) && a@ == t,
            }),
            Err(e) => r matches Err(x) && x == e,
        },
{
    let kb = lit_cutype();
    let key = Name::Iana(vstd::slice::slice_to_vec(kb.as_slice()));
    match params.take(&key) {
        None => Ok(None),
        Some(l) => match CalendarUserType::parse_value(l) {
            Ok(v) => Ok(Some(v)),
            Err(e) => Err(e),
        },
    }
}

/// Take `ROLE=` off the registered parameters and parse it.
pub open spec fn spec_take_role(mi: Seq<(Seq<u8>, Seq<Seq<u8>>)>) -> Result<
    (Seq<(Seq<u8>, Seq<Seq<u8>>)>, Option<ParticipationRoleV>),
    ParserError,
> {
    let (m2, got) = spec_map_take(mi, kw_role());
    match got {
        None => Ok((m2, None)),
        Some(vs) => match spec_parse_role(vs) {
            Err(e) => Err(e),
            Ok(t) => Ok((m2, Some(t))),
        },
    }
}

/// Take and parse `ROLE=`.
fn take_role(params: &mut ParamMap) -> (r: Result<Option<ParticipationRole>, ParserError>)
    ensures
        final(params).extend_view() == old(params).extend_view(),
        match spec_take_role(old(params).iana_view()) {
            Ok((m2, got)) => final(params).iana_view() == m2 && (match got {
                None => r matches Ok(o) && o is None,
                Some(t) => r matches Ok(o) && o matches Some(a) && a@ == t,
            }),
            Err(e) => r matches Err(x) && x == e,
        },
{
    let kb = lit_role();
    let key = Name::Iana(vstd::slice::slice_to_vec(kb.as_slice()));
    match params.take(&key) {
        None => Ok(None),
        Some(l) => match ParticipationRole::parse_value(l) {
            Ok(v) => Ok(Some(v)),
            Err(e) => Err(e),
        },
    }
}

/// Take `PARTSTAT=` off the registered parameters and parse it.
pub open spec fn spec_take_partstat(mi: Seq<(Seq<u8>, Seq<Seq<u8>>)>) -> Result<
    (Seq<(Seq<u8>, Seq<Seq<u8>>)>, Option<ParticipationStatusV>),
    ParserError,
> {
    let (m2, got) = spec_map_take(mi, kw_partstat());
    match got {
        None => Ok((m2, None)),
        Some(vs) => match spec_parse_partstat(vs) {
            Err(e) => Err(e),
            Ok(t) => Ok((m2, Some(t))),
        },
    }
}

/// Take and parse `PARTSTAT=`.
fn take_partstat(params: &mut ParamMap) -> (r: Result<Option<ParticipationStatus>, ParserError>)
    ensures
        final(params).extend_view() == old(params).extend_view(),
        match spec_take_partstat(old(params).iana_view()) {
            Ok((m2, got)) => final(params).iana_view() == m2 && (match got {
                None => r matches Ok(o) && o is None,
                Some(t) => r matches Ok(o) && o matches Some(a) && a@ == t,
            }),
            Err(e) => r matches Err(x) && x == e,
        },
{
    let kb = lit_partstat();
    let key = Name::Iana(vstd::slice::slice_to_vec(kb.as_slice()));
    match params.take(&key) {
        None => Ok(None),
        Some(l) => match ParticipationStatus::parse_value(l) {
            Ok(v) => Ok(Some(v)),
            Err(e) => Err(e),
        },
    }
}

/// Take `RSVP=` off the registered parameters and parse it.
pub open spec fn spec_take_rsvp(mi: Seq<(Seq<u8>, Seq<Seq<u8>>)>) -> Result<
    (Seq<(Seq<u8>, Seq<Seq<u8>>)>, Option<crate::params::RsvpExpectation>),
    ParserError,
> {
    let (m2, got) = spec_map_take(mi, kw_rsvp());
    match got {
        None => Ok((m2, None)),
        Some(vs) => match spec_parse_rsvp(vs) {
            Err(e) => Err(e),
            Ok(t) => Ok((m2, Some(t))),
        },
    }
}

/// Take and parse `RSVP=`.
fn take_rsvp(params: &mut ParamMap) -> (r: Result<Option<crate::params::RsvpExpectation>, ParserError>)
    ensures
        final(params).extend_view() == old(params).extend_view(),
        match spec_take_rsvp(old(params).iana_view()) {
            Ok((m2, got)) => final(params).iana_view() == m2 && (match got {
                None => r matches Ok(o) && o is None,
                Some(t) => r matches Ok(o) && o matches Some(a) && a == t,
            }),
            Err(e) => r matches Err(x) && x == e,
        },
{
    let kb = lit_rsvp();
    let key = Name::Iana(vstd::slice::slice_to_vec(kb.as_slice()));
    match params.take(&key) {
        None => Ok(None),
        Some(l) => match crate::params::RsvpExpectation::parse_value(l) {
            Ok(v) => Ok(Some(v)),
            Err(e) => Err(e),
        },
    }
}

/// Take `FMTTYPE=` off the registered parameters and parse it.
pub open spec fn spec_take_fmttype(mi: Seq<(Seq<u8>, Seq<Seq<u8>>)>) -> Result<
    (Seq<(Seq<u8>, Seq<Seq<u8>>)>, Option<NameV>),
    ParserError,
> {
    let (m2, got) = spec_map_take(mi, kw_fmttype());
    match got {
        None => Ok((m2, None)),
        Some(vs) => match spec_parse_fmttype(vs) {
            Err(e) => Err(e),
            Ok(t) => Ok((m2, Some(t))),
        },
    }
}

/// Take and parse `FMTTYPE=`.
fn take_fmttype(params: &mut ParamMap) -> (r: Result<Option<FormatType>, ParserError>)
    ensures
        final(params).extend_view() == old(params).extend_view(),
        match spec_take_fmttype(old(params).iana_view()) {
            Ok((m2, got)) => final(params).iana_view() == m2 && (match got {
                None => r matches Ok(o) && o is None,
                Some(t) => r matches Ok(o) && o matches Some(a) && a.0@ == t,
            }),
            Err(e) => r matches Err(x) && x == e,
        },
{
    let kb = lit_fmttype();
    let key = Name::Iana(vstd::slice::slice_to_vec(kb.as_slice()));
    match params.take(&key) {
        None => Ok(None),
        Some(l) => match FormatType::parse_value(l) {
            Ok(v) => Ok(Some(v)),
            Err(e) => Err(e),
        },
    }
}

/// Every element of `MEMBER=` is a calendar user address; absent means
/// an empty list.
pub open spec fn spec_take_member(mi: Seq<(Seq<u8>, Seq<Seq<u8>>)>) -> Result<
    (Seq<(Seq<u8>, Seq<Seq<u8>>)>, Seq<Seq<u8>>),
    ParserError,
> {
    let (m2, got) = spec_map_take(mi, kw_member());
    match got {
        None => Ok((m2, Seq::<Seq<u8>>::empty())),
        Some(vs) => if all_uris(vs) {
            Ok((m2, vs))
        } else {
            Err(ParserError { kind: ParserErrorKind::BadUri })
        },
    }
}

/// Take and parse `MEMBER=` into a list of addresses.
fn take_member(params: &mut ParamMap) -> (r: Result<Vec<CalendarUserAddress>, ParserError>)
    ensures
        final(params).extend_view() == old(params).extend_view(),
        match spec_take_member(old(params).iana_view()) {
            Ok((m2, texts)) => final(params).iana_view() == m2 && (r matches Ok(l)
                && addr_texts(l@) == texts && (forall|i: int|
                0 <= i < l@.len() ==> (#[trigger] l@[i]).wf())),
            Err(e) => r matches Err(x) && x == e,
        },
{
    let kb = lit_member();
    let key = Name::Iana(vstd::slice::slice_to_vec(kb.as_slice()));
    match params.take(&key) {
        None => {
            let r: Vec<CalendarUserAddress> = Vec::new();
            proof {
                assert(addr_texts(r@) =~= Seq::<Seq<u8>>::empty());
            }
            Ok(r)
        },
        Some(l) => match GroupOrListMember::parse_value(l) {
            Ok(v) => {
                let ghost vs = list_view(l);
                let out = crate::vec_one::opt_vec_one_to_vec(Some(v.0));
                proof {
                    assert(addr_texts(out@) =~= vs);
                }
                Ok(out)
            },
            Err(e) => Err(e),
        },
    }
}

/// Every element of `DELEGATED-TO=` is a calendar user address; absent means
/// an empty list.
pub open spec fn spec_take_delegated_to(mi: Seq<(Seq<u8>, Seq<Seq<u8>>)>) -> Result<
    (Seq<(Seq<u8>, Seq<Seq<u8>>)>, Seq<Seq<u8>>),
    ParserError,
> {
    let (m2, got) = spec_map_take(mi, kw_delegated_to());
    match got {
        None => Ok((m2, Seq::<Seq<u8>>::empty())),
        Some(vs) => if all_uris(vs) {
            Ok((m2, vs))
        } else {
            Err(ParserError { kind: ParserErrorKind::BadUri })
        },
    }
}

/// Take and parse `DELEGATED-TO=` into a list of addresses.
fn take_delegated_to(params: &mut ParamMap) -> (r: Result<Vec<CalendarUserAddress>, ParserError>)
    ensures
        final(params).extend_view() == old(params).extend_view(),
        match spec_take_delegated_to(old(params).iana_view()) {
            Ok((m2, texts)) => final(params).iana_view() == m2 && (r matches Ok(l)
                && addr_texts(l@) == texts && (forall|i: int|
                0 <= i < l@.len() ==> (#[trigger] l@[i]).wf())),
            Err(e) => r matches Err(x) && x == e,
        },
{
    let kb = lit_delegated_to();
    let key = Name::Iana(vstd::slice::slice_to_vec(kb.as_slice()));
    match params.take(&key) {
        None => {
            let r: Vec<CalendarUserAddress> = Vec::new();
            proof {
                assert(addr_texts(r@) =~= Seq::<Seq<u8>>::empty());
            }
            Ok(r)
        },
        Some(l) => match Delegatees::parse_value(l) {
            Ok(v) => {
                let ghost vs = list_view(l);
                let out = crate::vec_one::opt_vec_one_to_vec(Some(v.0));
                proof {
                    assert(addr_texts(out@) =~= vs);
                }
                Ok(out)
            },
            Err(e) => Err(e),
        },
    }
}

/// Every element of `DELEGATED-FROM=` is a calendar user address; absent means
/// an empty list.
pub open spec fn spec_take_delegated_from(mi: Seq<(Seq<u8>, Seq<Seq<u8>>)>) -> Result<
    (Seq<(Seq<u8>, Seq<Seq<u8>>)>, Seq<Seq<u8>>),
    ParserError,
> {
    let (m2, got) = spec_map_take(mi, kw_delegated_from());
    match got {
        None => Ok((m2, Seq::<Seq<u8>>::empty())),
        Some(vs) => if all_uris(vs) {
            Ok((m2, vs))
        } else {
            Err(ParserError { kind: ParserErrorKind::BadUri })
        },
    }
}

/// Take and parse `DELEGATED-FROM=` into a list of addresses.
fn take_delegated_from(params: &mut ParamMap) -> (r: Result<Vec<CalendarUserAddress>, ParserError>)
    ensures
        final(params).extend_view() == old(params).extend_view(),
        match spec_take_delegated_from(old(params).iana_view()) {
            Ok((m2, texts)) => final(params).iana_view() == m2 && (r matches Ok(l)
                && addr_texts(l@) == texts && (forall|i: int|
                0 <= i < l@.len() ==> (#[trigger] l@[i]).wf())),
            Err(e) => r matches Err(x) && x == e,
        },
{
    let kb = lit_delegated_from();
    let key = Name::Iana(vstd::slice::slice_to_vec(kb.as_slice()));
    match params.take(&key) {
        None => {
            let r: Vec<CalendarUserAddress> = Vec::new();
            proof {
                assert(addr_texts(r@) =~= Seq::<Seq<u8>>::empty());
            }
            Ok(r)
        },
        Some(l) => match Delegators::parse_value(l) {
            Ok(v) => {
                let ghost vs = list_view(l);
                let out = crate::vec_one::opt_vec_one_to_vec(Some(v.0));
                proof {
                    assert(addr_texts(out@) =~= vs);
                }
                Ok(out)
            },
            Err(e) => Err(e),
        },
    }
}

// ---------------------------------------------------------------------------
// Property handlers
// ---------------------------------------------------------------------------

/// `PRODID:` allows no registered parameters; its value is the product id.
pub open spec fn spec_parse_prodid(lv: LineV) -> Result<Seq<u8>, ParserError> {
    if lv.iana.len() > 0 {
        Err(ParserError { kind: ParserErrorKind::UnexpectedParam })
    } else {
        Ok(lv.value)
    }
}

/// Handle a `PRODID:` line.
fn parse_prodid(input: Line) -> (r: Result<Vec<u8>, ParserError>)
    ensures
        match spec_parse_prodid(input@) {
            Ok(t) => r matches Ok(v) && v@ == t,
            Err(e) => r matches Err(x) && x == e,
        },
{
    if input.first_iana_param().is_some() {
        return Err(ParserError { kind: ParserErrorKind::UnexpectedParam });
    }
    Ok(input.value)
}

/// `VERSION:` allows no registered parameters and must be `2.0`.
pub open spec fn spec_parse_version(lv: LineV) -> Result<(), ParserError> {
    if lv.iana.len() > 0 {
        Err(ParserError { kind: ParserErrorKind::UnexpectedParam })
    } else if lv.value != kw_two_point_zero() {
        Err(ParserError { kind: ParserErrorKind::UnknownToken })
    } else {
        Ok(())
    }
}

/// Handle a `VERSION:` line; only version 2.0 is supported.
fn parse_version(input: Line) -> (r: Result<(), ParserError>)
    ensures
        r == spec_parse_version(input@),
{
    if input.first_iana_param().is_some() {
        return Err(ParserError { kind: ParserErrorKind::UnexpectedParam });
    }
    if !eq_bytes(input.value.as_slice(), lit_two_point_zero().as_slice()) {
        return Err(ParserError { kind: ParserErrorKind::UnknownToken });
    }
    Ok(())
}

/// `CALSCALE:` allows no registered parameters; `GREGORIAN` is the known
/// scale, any other name token is kept as another scale.
pub open spec fn spec_parse_cal_scale(lv: LineV) -> Result<CalScaleV, ParserError> {
    if lv.iana.len() > 0 {
        Err(ParserError { kind: ParserErrorKind::UnexpectedParam })
    } else if lv.value == kw_gregorian() {
        Ok(CalScaleV::Gregorian)
    } else if valid_name_token(lv.value) {
        Ok(CalScaleV::Other(lv.value))
    } else {
        Err(ParserError { kind: ParserErrorKind::InvalidName })
    }
}

/// Handle a `CALSCALE:` line.
fn parse_cal_scale(input: Line) -> (r: Result<CalScale, ParserError>)
    ensures
        match spec_parse_cal_scale(input@) {
            Ok(v) => r matches Ok(c) && c@ == v,
            Err(e) => r matches Err(x) && x == e,
        },
{
    if input.first_iana_param().is_some() {
        return Err(ParserError { kind: ParserErrorKind::UnexpectedParam });
    }
    if eq_bytes(input.value.as_slice(), lit_gregorian().as_slice()) {
        return Ok(CalScale::Gregorian);
    }
    match crate::helpers::check_iana_token(input.value.as_slice()) {
        Ok(()) => Ok(CalScale::Other(input.value)),
        Err(e) => Err(e),
    }
}

/// `CLASS:` takes one of the known classifications, or any valid name.
pub open spec fn spec_parse_class(value: Seq<u8>) -> Result<ClassV, ParserError> {
    if value == kw_public() {
        Ok(ClassV::Public)
    } else if value == kw_private() {
        Ok(ClassV::Private)
    } else if value == kw_confidential() {
        Ok(ClassV::Confidential)
    } else {
        match crate::name::spec_parse_name(value) {
            Ok(NameV::XName(x)) => Ok(ClassV::XName(x)),
            Ok(NameV::Iana(t)) => Ok(ClassV::Iana(t)),
            Err(e) => Err(e),
        }
    }
}

/// Handle the value of a `CLASS:` line.
fn parse_class(input: Vec<u8>) -> (r: Result<Class, ParserError>)
    ensures
        match spec_parse_class(input@) {
            Ok(v) => r matches Ok(c) && c@ == v,
            Err(e) => r matches Err(x) && x == e,
        },
{
    let s = input.as_slice();
    if eq_bytes(s, lit_public().as_slice()) {
        Ok(Class::Public)
    } else if eq_bytes(s, lit_private().as_slice()) {
        Ok(Class::Private)
    } else if eq_bytes(s, lit_confidential().as_slice()) {
        Ok(Class::Confidential)
    } else {
        match Name::parse(s) {
            Ok(Name::XName(x)) => Ok(Class::XName(x)),
            Ok(Name::Iana(t)) => Ok(Class::Iana(t)),
            Err(e) => Err(e),
        }
    }
}

/// A text property with optional `LANGUAGE=` and `ALTREP=`.
pub open spec fn spec_parse_annotated_text(lv: LineV) -> Result<AnnotatedTextV, ParserError> {
    match spec_take_language(lv.iana) {
        Err(e) => Err(e),
        Ok((m1, lang)) => match spec_take_altrep(m1) {
            Err(e) => Err(e),
            Ok((_m2, altrep)) => Ok(AnnotatedTextV { lang, altrep, text: lv.value }),
        },
    }
}

/// Handle a text property line with its annotations.
fn parse_annotated_text(input: Line) -> (r: Result<AnnotatedText, ParserError>)
    ensures
        match spec_parse_annotated_text(input@) {
            Ok(v) => r matches Ok(a) && a@ == v,
            Err(e) => r matches Err(x) && x == e,
        },
{
    let mut line = input;
    let lang = match take_language(&mut line.params) {
        Ok(v) => v,
        Err(e) => {
            return Err(e);
        },
    };
    let altrep = match take_altrep(&mut line.params) {
        Ok(v) => v,
        Err(e) => {
            return Err(e);
        },
    };
    let r = AnnotatedText { lang, altrep, text: line.value };
    proof {
        assert(r@ =~= (spec_parse_annotated_text(input@)->Ok_0));
    }
    Ok(r)
}

/// `ORGANIZER:` takes optional `CN=`, `DIR=`, `SENT-BY=` and `LANGUAGE=`;
/// its value is a calendar user address.
pub open spec fn spec_parse_organizer(lv: LineV) -> Result<OrganizerV, ParserError> {
    match spec_take_cn(lv.iana) {
        Err(e) => Err(e),
        Ok((m1, cn)) => match spec_take_dir(m1) {
            Err(e) => Err(e),
            Ok((m2, dir)) => match spec_take_sent_by(m2) {
                Err(e) => Err(e),
                Ok((m3, sent_by)) => match spec_take_language(m3) {
                    Err(e) => Err(e),
                    Ok((_m4, lang)) => {
                        if uri_well_formed(lv.value) {
                            Ok(
                                OrganizerV {
                                    common_name: cn,
                                    dir,
                                    sent_by,
                                    lang,
                                    value: lv.value,
                                },
                            )
                        } else {
                            Err(ParserError { kind: ParserErrorKind::BadUri })
                        }
                    },
                },
            },
        },
    }
}

/// Handle an `ORGANIZER:` line.
fn parse_organizer(input: Line) -> (r: Result<Organizer, ParserError>)
    ensures
        match spec_parse_organizer(input@) {
            Ok(v) => r matches Ok(o) && o@ == v,
            Err(e) => r matches Err(x) && x == e,
        },
{
    let mut line = input;
    let common_name = match take_cn(&mut line.params) {
        Ok(v) => v,
        Err(e) => {
            return Err(e);
        },
    };
    let dir = match take_dir(&mut line.params) {
        Ok(v) => v,
        Err(e) => {
            return Err(e);
        },
    };
    let sent_by = match take_sent_by(&mut line.params) {
        Ok(v) => v,
        Err(e) => {
            return Err(e);
        },
    };
    let lang = match take_language(&mut line.params) {
        Ok(v) => v,
        Err(e) => {
            return Err(e);
        },
    };
    let value = match CalendarUserAddress::parse(line.value) {
        Ok(v) => v,
        Err(e) => {
            return Err(e);
        },
    };
    let r = Organizer { common_name, dir, sent_by, lang, value };
    proof {
        assert(r@ =~= (spec_parse_organizer(input@)->Ok_0));
    }
    Ok(r)
}

/// `STATUS:` takes one of the three event status tokens.
pub open spec fn spec_parse_event_status(value: Seq<u8>) -> Result<EventStatus, ParserError> {
    if value == kw_tentative() {
        Ok(EventStatus::Tentative)
    } else if value == kw_confirmed() {
        Ok(EventStatus::Confirmed)
    } else if value == kw_cancelled() {
        Ok(EventStatus::Cancelled)
    } else {
        Err(ParserError { kind: ParserErrorKind::UnknownToken })
    }
}

/// Handle the value of a `STATUS:` line.
fn parse_event_status(input: &Line) -> (r: Result<EventStatus, ParserError>)
    ensures
        r == spec_parse_event_status(input@.value),
{
    let s = input.value.as_slice();
    if eq_bytes(s, lit_tentative().as_slice()) {
        Ok(EventStatus::Tentative)
    } else if eq_bytes(s, lit_confirmed().as_slice()) {
        Ok(EventStatus::Confirmed)
    } else if eq_bytes(s, lit_cancelled().as_slice()) {
        Ok(EventStatus::Cancelled)
    } else {
        Err(ParserError { kind: ParserErrorKind::UnknownToken })
    }
}

/// `TRANSP:` takes `OPAQUE` or `TRANSPARENT`.
pub open spec fn spec_parse_time_transparency(value: Seq<u8>) -> Result<
    TimeTransparency,
    ParserError,
> {
    if value == kw_opaque() {
        Ok(TimeTransparency::Opaque)
    } else if value == kw_transparent() {
        Ok(TimeTransparency::Transparent)
    } else {
        Err(ParserError { kind: ParserErrorKind::UnknownToken })
    }
}

/// Handle the value of a `TRANSP:` line.
fn parse_time_transparency(input: &Line) -> (r: Result<TimeTransparency, ParserError>)
    ensures
        r == spec_parse_time_transparency(input@.value),
{
    let s = input.value.as_slice();
    if eq_bytes(s, lit_opaque().as_slice()) {
        Ok(TimeTransparency::Opaque)
    } else if eq_bytes(s, lit_transparent().as_slice()) {
        Ok(TimeTransparency::Transparent)
    } else {
        Err(ParserError { kind: ParserErrorKind::UnknownToken })
    }
}

/// The value of a date property: a date-time unless `VALUE=DATE` says a
/// plain date (`VALUE=DATE-TIME` also allowed); anything after the parsed
/// value is dropped.
pub open spec fn spec_parse_dod(
    mi: Seq<(Seq<u8>, Seq<Seq<u8>>)>,
    value: Seq<u8>,
) -> Result<(Seq<(Seq<u8>, Seq<Seq<u8>>)>, DateOrDateTime), ParserError> {
    let (m1, got) = spec_map_take(mi, kw_value());
    match (match got {
        None => Ok::<bool, ParserError>(true),
        Some(vs) => match spec_single(vs) {
            Err(e) => Err(e),
            Ok(t) => {
                if t == kw_date_time() {
                    Ok(true)
                } else if t == kw_date() {
                    Ok(false)
                } else {
                    Err(ParserError { kind: ParserErrorKind::UnknownToken })
                }
            },
        },
    }) {
        Err(e) => Err(e),
        Ok(true) => match crate::types::spec_parse_datetime(value) {
            Err(e) => Err(e),
            Ok((_rest, dt)) => Ok((m1, DateOrDateTime::DateTime(dt))),
        },
        Ok(false) => match crate::types::spec_parse_date(value) {
            Err(e) => Err(e),
            Ok((_rest, d)) => Ok((m1, DateOrDateTime::Date(d))),
        },
    }
}

/// Take `VALUE=` and read the line's value as a date or date-time.
fn parse_date_or_datetime(line: &mut Line) -> (r: Result<DateOrDateTime, ParserError>)
    ensures
        final(line).params.extend_view() == old(line).params.extend_view(),
        final(line).value == old(line).value,
        final(line).name == old(line).name,
        match spec_parse_dod(old(line).params.iana_view(), old(line).value@) {
            Ok((m1, v)) => r matches Ok(d) && d == v && final(line).params.iana_view() == m1,
            Err(e) => r matches Err(x) && x == e,
        },
{
    let kb = lit_value();
    let key = Name::Iana(vstd::slice::slice_to_vec(kb.as_slice()));
    let is_datetime = match line.params.take(&key) {
        None => true,
        Some(l) => {
            let v = match crate::params::take_single(l) {
                Ok(v) => v,
                Err(e) => {
                    return Err(e);
                },
            };
            if eq_bytes(v.as_slice(), lit_date_time().as_slice()) {
                true
            } else if eq_bytes(v.as_slice(), lit_date().as_slice()) {
                false
            } else {
                return Err(ParserError { kind: ParserErrorKind::UnknownToken });
            }
        },
    };
    if is_datetime {
        match DateTime::parse(line.value.as_slice()) {
            Err(e) => Err(e),
            Ok((_rest, dt)) => Ok(DateOrDateTime::DateTime(dt)),
        }
    } else {
        match crate::types::Date::parse(line.value.as_slice()) {
            Err(e) => Err(e),
            Ok((_rest, d)) => Ok(DateOrDateTime::Date(d)),
        }
    }
}

/// Further `,`-separated date-times.
pub open spec fn dt_list_loop(s: Seq<u8>, acc: Seq<DateOrDateTime>) -> Result<
    Seq<DateOrDateTime>,
    ParserError,
>
    decreases s.len(),
    via dt_list_loop_dec
{
    if s.len() > 0 && s[0] == crate::helpers::COMMA {
        match crate::types::spec_parse_datetime(s.skip(1)) {
            Err(e) => Err(e),
            Ok((r, dt)) => dt_list_loop(r, acc.push(DateOrDateTime::DateTime(dt))),
        }
    } else {
        Ok(acc)
    }
}

#[via_fn]
proof fn dt_list_loop_dec(s: Seq<u8>, acc: Seq<DateOrDateTime>) {
    if s.len() > 0 && s[0] == crate::helpers::COMMA {
        crate::types::lemma_parse_datetime_progress(s.skip(1));
    }
}

/// Further `,`-separated dates.
pub open spec fn date_list_loop(s: Seq<u8>, acc: Seq<DateOrDateTime>) -> Result<
    Seq<DateOrDateTime>,
    ParserError,
>
    decreases s.len(),
    via date_list_loop_dec
{
    if s.len() > 0 && s[0] == crate::helpers::COMMA {
        match crate::types::spec_parse_date(s.skip(1)) {
            Err(e) => Err(e),
            Ok((r, d)) => date_list_loop(r, acc.push(DateOrDateTime::Date(d))),
        }
    } else {
        Ok(acc)
    }
}

#[via_fn]
proof fn date_list_loop_dec(s: Seq<u8>, acc: Seq<DateOrDateTime>) {
    if s.len() > 0 && s[0] == crate::helpers::COMMA {
        crate::types::lemma_parse_date_progress(s.skip(1));
    }
}

/// A `,`-separated list of date or date-time values, the kind picked by
/// `VALUE=` as for a single value.
pub open spec fn spec_parse_dod_list(
    mi: Seq<(Seq<u8>, Seq<Seq<u8>>)>,
    value: Seq<u8>,
) -> Result<(Seq<(Seq<u8>, Seq<Seq<u8>>)>, Seq<DateOrDateTime>), ParserError> {
    let (m1, got) = spec_map_take(mi, kw_value());
    match (match got {
        None => Ok::<bool, ParserError>(true),
        Some(vs) => match spec_single(vs) {
            Err(e) => Err(e),
            Ok(t) => {
                if t == kw_date_time() {
                    Ok(true)
                } else if t == kw_date() {
                    Ok(false)
                } else {
                    Err(ParserError { kind: ParserErrorKind::UnknownToken })
                }
            },
        },
    }) {
        Err(e) => Err(e),
        Ok(true) => match crate::types::spec_parse_datetime(value) {
            Err(e) => Err(e),
            Ok((rest, dt)) => match dt_list_loop(rest, seq![DateOrDateTime::DateTime(dt)]) {
                Err(e) => Err(e),
                Ok(l) => Ok((m1, l)),
            },
        },
        Ok(false) => match crate::types::spec_parse_date(value) {
            Err(e) => Err(e),
            Ok((rest, d)) => match date_list_loop(rest, seq![DateOrDateTime::Date(d)]) {
                Err(e) => Err(e),
                Ok(l) => Ok((m1, l)),
            },
        },
    }
}

/// Take `VALUE=` and read the line's value as a list of dates or
/// date-times.
fn parse_date_or_datetime_list(line: &mut Line) -> (r: Result<VecOne<DateOrDateTime>, ParserError>)
    ensures
        final(line).params.extend_view() == old(line).params.extend_view(),
        final(line).value == old(line).value,
        final(line).name == old(line).name,
        match spec_parse_dod_list(old(line).params.iana_view(), old(line).value@) {
            Ok((m1, l)) => r matches Ok(v) && v.elems() == l && final(line).params.iana_view()
                == m1,
            Err(e) => r matches Err(x) && x == e,
        },
{
    let kb = lit_value();
    let key = Name::Iana(vstd::slice::slice_to_vec(kb.as_slice()));
    let is_datetime = match line.params.take(&key) {
        None => true,
        Some(l) => {
            let v = match crate::params::take_single(l) {
                Ok(v) => v,
                Err(e) => {
                    return Err(e);
                },
            };
            if eq_bytes(v.as_slice(), lit_date_time().as_slice()) {
                true
            } else if eq_bytes(v.as_slice(), lit_date().as_slice()) {
                false
            } else {
                return Err(ParserError { kind: ParserErrorKind::UnknownToken });
            }
        },
    };
    let ghost mi1 = line.params.iana_view();
    if is_datetime {
        let (first_rest, dt) = match DateTime::parse(line.value.as_slice()) {
            Err(e) => {
                return Err(e);
            },
            Ok(v) => v,
        };
        let mut out = VecOne::new(DateOrDateTime::DateTime(dt));
        let mut rest = first_rest;
        loop
            invariant
                line.params.iana_view() == mi1,
                line.params.extend_view() == old(line).params.extend_view(),
                line.value == old(line).value,
                line.name == old(line).name,
                match spec_parse_dod_list(old(line).params.iana_view(), old(line).value@) {
                    Ok(p) => p.0 == mi1 && dt_list_loop(rest@, out.elems()) == Ok::<
                        Seq<DateOrDateTime>,
                        ParserError,
                    >(p.1),
                    Err(e) => dt_list_loop(rest@, out.elems()) == Err::<
                        Seq<DateOrDateTime>,
                        ParserError,
                    >(e),
                },
            decreases rest@.len(),
        {
            if !(rest.len() > 0 && rest.as_slice()[0] == crate::helpers::COMMA) {
                return Ok(out);
            }
            let sub = crate::helpers::copy_range(rest.as_slice(), 1, rest.len());
            proof {
                crate::types::lemma_parse_datetime_progress(sub@);
            }
            match DateTime::parse(sub.as_slice()) {
                Err(e) => {
                    return Err(e);
                },
                Ok((r2, dt2)) => {
                    out.push(DateOrDateTime::DateTime(dt2));
                    rest = r2;
                },
            }
        }
    } else {
        let (first_rest, d) = match crate::types::Date::parse(line.value.as_slice()) {
            Err(e) => {
                return Err(e);
            },
            Ok(v) => v,
        };
        let mut out = VecOne::new(DateOrDateTime::Date(d));
        let mut rest = first_rest;
        loop
            invariant
                line.params.iana_view() == mi1,
                line.params.extend_view() == old(line).params.extend_view(),
                line.value == old(line).value,
                line.name == old(line).name,
                match spec_parse_dod_list(old(line).params.iana_view(), old(line).value@) {
                    Ok(p) => p.0 == mi1 && date_list_loop(rest@, out.elems()) == Ok::<
                        Seq<DateOrDateTime>,
                        ParserError,
                    >(p.1),
                    Err(e) => date_list_loop(rest@, out.elems()) == Err::<
                        Seq<DateOrDateTime>,
                        ParserError,
                    >(e),
                },
            decreases rest@.len(),
        {
            if !(rest.len() > 0 && rest.as_slice()[0] == crate::helpers::COMMA) {
                return Ok(out);
            }
            let sub = crate::helpers::copy_range(rest.as_slice(), 1, rest.len());
            proof {
                crate::types::lemma_parse_date_progress(sub@);
            }
            match crate::types::Date::parse(sub.as_slice()) {
                Err(e) => {
                    return Err(e);
                },
                Ok((r2, d2)) => {
                    out.push(DateOrDateTime::Date(d2));
                    rest = r2;
                },
            }
        }
    }
}

/// `RECURRENCE-ID:` takes optional `RANGE=` and `TZID=`, then a date or
/// date-time value.
pub open spec fn spec_parse_recurrence_id(lv: LineV) -> Result<RecurrenceIdV, ParserError> {
    match spec_take_range(lv.iana) {
        Err(e) => Err(e),
        Ok((m1, range)) => match spec_take_tzid(m1) {
            Err(e) => Err(e),
            Ok((m2, tzid)) => match spec_parse_dod(m2, lv.value) {
                Err(e) => Err(e),
                Ok((_m3, v)) => Ok(RecurrenceIdV { range, timezone_id: tzid, value: v }),
            },
        },
    }
}

/// Handle a `RECURRENCE-ID:` line.
fn parse_recurrence_id(input: Line) -> (r: Result<RecurrenceId, ParserError>)
    ensures
        match spec_parse_recurrence_id(input@) {
            Ok(v) => r matches Ok(a) && a@ == v,
            Err(e) => r matches Err(x) && x == e,
        },
{
    let mut line = input;
    let range = match take_range(&mut line.params) {
        Ok(v) => v,
        Err(e) => {
            return Err(e);
        },
    };
    let timezone_id = match take_tzid(&mut line.params) {
        Ok(v) => v,
        Err(e) => {
            return Err(e);
        },
    };
    let value = match parse_date_or_datetime(&mut line) {
        Ok(v) => v,
        Err(e) => {
            return Err(e);
        },
    };
    let r = RecurrenceId { range, timezone_id, value };
    proof {
        assert(r@ =~= (spec_parse_recurrence_id(input@)->Ok_0));
    }
    Ok(r)
}

/// `DTEND:` takes an optional `TZID=`, then a date or date-time value.
pub open spec fn spec_parse_datetime_end(lv: LineV) -> Result<EventEndV, ParserError> {
    match spec_take_tzid(lv.iana) {
        Err(e) => Err(e),
        Ok((m1, tzid)) => match spec_parse_dod(m1, lv.value) {
            Err(e) => Err(e),
            Ok((_m2, v)) => Ok(EventEndV::DateTime { value: v, timezone_id: tzid }),
        },
    }
}

/// Handle a `DTEND:` line.
fn parse_datetime_end(input: Line) -> (r: Result<EventEnd, ParserError>)
    ensures
        match spec_parse_datetime_end(input@) {
            Ok(v) => r matches Ok(a) && a@ == v,
            Err(e) => r matches Err(x) && x == e,
        },
{
    let mut line = input;
    let timezone_id = match take_tzid(&mut line.params) {
        Ok(v) => v,
        Err(e) => {
            return Err(e);
        },
    };
    let value = match parse_date_or_datetime(&mut line) {
        Ok(v) => v,
        Err(e) => {
            return Err(e);
        },
    };
    let r = EventEnd::DateTime { value, timezone_id };
    proof {
        assert(r@ =~= (spec_parse_datetime_end(input@)->Ok_0));
    }
    Ok(r)
}

/// `ATTACHMENT:` takes an optional `FMTTYPE=`; with `VALUE=BINARY` (which
/// demands `ENCODING=BASE64`) the value is decoded from base64, otherwise
/// it is a URI.
pub open spec fn spec_parse_attachment(lv: LineV) -> Result<AttachmentV, ParserError> {
    match spec_take_fmttype(lv.iana) {
        Err(e) => Err(e),
        Ok((m1, fmt_type)) => {
            let (m2, got_value) = spec_map_take(m1, kw_value());
            match got_value {
                Some(vs) => match spec_single(vs) {
                    Err(e) => Err(e),
                    Ok(t) => {
                        if t != kw_binary() {
                            Err(ParserError { kind: ParserErrorKind::UnknownToken })
                        } else {
                            let (m3, got_enc) = spec_map_take(m2, kw_encoding());
                            match got_enc {
                                None => Err(
                                    ParserError { kind: ParserErrorKind::InvalidParamValue },
                                ),
                                Some(evs) => match spec_single(evs) {
                                    Err(e) => Err(e),
                                    Ok(et) => {
                                        if et != kw_base64() {
                                            Err(ParserError { kind: ParserErrorKind::UnknownToken })
                                        } else {
                                            match base64_decode(lv.value) {
                                                Some(d) => Ok(
                                                    AttachmentV {
                                                        fmt_type,
                                                        data: DataV::Blob(d),
                                                    },
                                                ),
                                                None => Err(
                                                    ParserError { kind: ParserErrorKind::BadBase64 },
                                                ),
                                            }
                                        }
                                    },
                                },
                            }
                        }
                    },
                },
                None => {
                    if uri_well_formed(lv.value) {
                        Ok(AttachmentV { fmt_type, data: DataV::Uri(lv.value) })
                    } else {
                        Err(ParserError { kind: ParserErrorKind::BadUri })
                    }
                },
            }
        },
    }
}

/// Handle an `ATTACHMENT:` line.
fn parse_attachment(input: Line) -> (r: Result<Attachment, ParserError>)
    ensures
        match spec_parse_attachment(input@) {
            Ok(v) => r matches Ok(a) && a@ == v,
            Err(e) => r matches Err(x) && x == e,
        },
{
    let mut line = input;
    let fmt_type = match take_fmttype(&mut line.params) {
        Ok(v) => v,
        Err(e) => {
            return Err(e);
        },
    };
    let vb = lit_value();
    let vkey = Name::Iana(vstd::slice::slice_to_vec(vb.as_slice()));
    let data = match line.params.take(&vkey) {
        Some(l) => {
            let v = match crate::params::take_single(l) {
                Ok(v) => v,
                Err(e) => {
                    return Err(e);
                },
            };
            if !eq_bytes(v.as_slice(), lit_binary().as_slice()) {
                return Err(ParserError { kind: ParserErrorKind::UnknownToken });
            }
            let eb = lit_encoding();
            let ekey = Name::Iana(vstd::slice::slice_to_vec(eb.as_slice()));
            let enc = match line.params.take(&ekey) {
                Some(l2) => l2,
                None => {
                    return Err(ParserError { kind: ParserErrorKind::InvalidParamValue });
                },
            };
            let ev = match crate::params::take_single(enc) {
                Ok(v) => v,
                Err(e) => {
                    return Err(e);
                },
            };
            if !eq_bytes(ev.as_slice(), lit_base64().as_slice()) {
                return Err(ParserError { kind: ParserErrorKind::UnknownToken });
            }
            match Binary::parse(line.value.as_slice()) {
                Ok(b) => Data::Blob(b.data),
                Err(e) => {
                    return Err(e);
                },
            }
        },
        None => {
            match Uri::parse(line.value) {
                Ok(u) => Data::Uri(u),
                Err(e) => {
                    return Err(e);
                },
            }
        },
    };
    let r = Attachment { fmt_type, data };
    proof {
        assert(r@ =~= (spec_parse_attachment(input@)->Ok_0));
    }
    Ok(r)
}

/// `ATTENDEE:` takes the participation parameters, each at most once, with
/// their documented defaults; the line's own value is not read.
pub open spec fn spec_parse_attendee(lv: LineV) -> Result<AttendeeV, ParserError> {
    match spec_take_cutype(lv.iana) {
        Err(e) => Err(e),
        Ok((m1, cutype)) => match spec_take_member(m1) {
            Err(e) => Err(e),
            Ok((m2, members)) => match spec_take_role(m2) {
                Err(e) => Err(e),
                Ok((m3, role)) => match spec_take_partstat(m3) {
                    Err(e) => Err(e),
                    Ok((m4, partstat)) => match spec_take_rsvp(m4) {
                        Err(e) => Err(e),
                        Ok((m5, rsvp)) => match spec_take_delegated_to(m5) {
                            Err(e) => Err(e),
                            Ok((m6, to)) => match spec_take_delegated_from(m6) {
                                Err(e) => Err(e),
                                Ok((m7, from)) => match spec_take_sent_by(m7) {
                                    Err(e) => Err(e),
                                    Ok((m8, sent_by)) => match spec_take_cn(m8) {
                                        Err(e) => Err(e),
                                        Ok((m9, cn)) => match spec_take_dir(m9) {
                                            Err(e) => Err(e),
                                            Ok((m10, dir)) => match spec_take_language(m10) {
                                                Err(e) => Err(e),
                                                Ok((_m11, lang)) => Ok(
                                                    AttendeeV {
                                                        cutype: (match cutype {
                                                            Some(c) => c,
                                                            None => CalendarUserTypeV::Individual,
                                                        }),
                                                        group_or_list_members: members,
                                                        role: (match role {
                                                            Some(c) => c,
                                                            None => ParticipationRoleV::ReqParticipant,
                                                        }),
                                                        participation_status: (match partstat {
                                                            Some(c) => c,
                                                            None => ParticipationStatusV::NeedsAction,
                                                        }),
                                                        rsvp: (match rsvp {
                                                            Some(c) => c,
                                                            None => crate::params::RsvpExpectation::False,
                                                        }),
                                                        delegated_to: to,
                                                        delegated_from: from,
                                                        sent_by,
                                                        common_name: cn,
                                                        dir,
                                                        lang,
                                                    },
                                                ),
                                            },
                                        },
                                    },
                                },
                            },
                        },
                    },
                },
            },
        },
    }
}

/// Handle an `ATTENDEE:` line.
fn parse_attendee(input: Line) -> (r: Result<Attendee, ParserError>)
    ensures
        match spec_parse_attendee(input@) {
            Ok(v) => r matches Ok(a) && a@ == v,
            Err(e) => r matches Err(x) && x == e,
        },
{
    let mut line = input;
    let cutype = match take_cutype(&mut line.params) {
        Ok(v) => v,
        Err(e) => {
            return Err(e);
        },
    };
    let group_or_list_members = match take_member(&mut line.params) {
        Ok(v) => v,
        Err(e) => {
            return Err(e);
        },
    };
    let role = match take_role(&mut line.params) {
        Ok(v) => v,
        Err(e) => {
            return Err(e);
        },
    };
    let participation_status = match take_partstat(&mut line.params) {
        Ok(v) => v,
        Err(e) => {
            return Err(e);
        },
    };
    let rsvp = match take_rsvp(&mut line.params) {
        Ok(v) => v,
        Err(e) => {
            return Err(e);
        },
    };
    let delegated_to = match take_delegated_to(&mut line.params) {
        Ok(v) => v,
        Err(e) => {
            return Err(e);
        },
    };
    let delegated_from = match take_delegated_from(&mut line.params) {
        Ok(v) => v,
        Err(e) => {
            return Err(e);
        },
    };
    let sent_by = match take_sent_by(&mut line.params) {
        Ok(v) => v,
        Err(e) => {
            return Err(e);
        },
    };
    let common_name = match take_cn(&mut line.params) {
        Ok(v) => v,
        Err(e) => {
            return Err(e);
        },
    };
    let dir = match take_dir(&mut line.params) {
        Ok(v) => v,
        Err(e) => {
            return Err(e);
        },
    };
    let lang = match take_language(&mut line.params) {
        Ok(v) => v,
        Err(e) => {
            return Err(e);
        },
    };
    let r = Attendee {
        cutype: (match cutype {
            Some(c) => c,
            None => CalendarUserType::Individual,
        }),
        group_or_list_members,
        role: (match role {
            Some(c) => c,
            None => ParticipationRole::ReqParticipant,
        }),
        participation_status: (match participation_status {
            Some(c) => c,
            None => ParticipationStatus::NeedsAction,
        }),
        rsvp: (match rsvp {
            Some(c) => c,
            None => crate::params::RsvpExpectation::False,
        }),
        delegated_to,
        delegated_from,
        sent_by: (match sent_by {
            Some(s) => Some(s.0),
            None => None,
        }),
        common_name,
        dir,
        lang,
    };
    proof {
        assert(r@ =~= (spec_parse_attendee(input@)->Ok_0));
    }
    Ok(r)
}

/// `CATEGORIES:` takes an optional `LANGUAGE=`; its value is an escaped
/// text list.
pub open spec fn spec_parse_categories(lv: LineV) -> Result<CategoriesV, ParserError> {
    match spec_take_language(lv.iana) {
        Err(e) => Err(e),
        Ok((_m1, lang)) => match crate::values::spec_parse_text(lv.value) {
            Err(e) => Err(e),
            Ok(l) => Ok(CategoriesV { lang, values: l }),
        },
    }
}

/// Handle a `CATEGORIES:` line.
fn parse_categories(input: Line) -> (r: Result<Categories, ParserError>)
    ensures
        match spec_parse_categories(input@) {
            Ok(v) => r matches Ok(a) && a@ == v,
            Err(e) => r matches Err(x) && x == e,
        },
{
    let mut line = input;
    let lang = match take_language(&mut line.params) {
        Ok(v) => v,
        Err(e) => {
            return Err(e);
        },
    };
    let values = match Text::parse(line.value.as_slice()) {
        Ok(t) => t.0,
        Err(e) => {
            return Err(e);
        },
    };
    let r = Categories { lang, values };
    proof {
        assert(r@ =~= (spec_parse_categories(input@)->Ok_0));
    }
    Ok(r)
}

/// `COMMENT:` and `CONTACT:` take optional `LANGUAGE=` and `ALTREP=`.
pub open spec fn spec_parse_commentish(lv: LineV) -> Result<AnnotatedTextV, ParserError> {
    spec_parse_annotated_text(lv)
}

/// Handle a `COMMENT:` line.
fn parse_comment(input: Line) -> (r: Result<Comment, ParserError>)
    ensures
        match spec_parse_commentish(input@) {
            Ok(v) => r matches Ok(a) && a@ == v,
            Err(e) => r matches Err(x) && x == e,
        },
{
    match parse_annotated_text(input) {
        Ok(a) => Ok(Comment { lang: a.lang, altrep: a.altrep, value: a.text }),
        Err(e) => Err(e),
    }
}

/// Handle a `CONTACT:` line.
fn parse_contact(input: Line) -> (r: Result<Contact, ParserError>)
    ensures
        match spec_parse_commentish(input@) {
            Ok(v) => r matches Ok(a) && a@ == v,
            Err(e) => r matches Err(x) && x == e,
        },
{
    match parse_annotated_text(input) {
        Ok(a) => Ok(Contact { lang: a.lang, altrep: a.altrep, value: a.text }),
        Err(e) => Err(e),
    }
}

/// `EXDATE:` takes an optional `TZID=`, then a list of dates or date-times.
pub open spec fn spec_parse_exception_dates(lv: LineV) -> Result<
    ExceptionDateTimesV,
    ParserError,
> {
    match spec_take_tzid(lv.iana) {
        Err(e) => Err(e),
        Ok((m1, tzid)) => match spec_parse_dod_list(m1, lv.value) {
            Err(e) => Err(e),
            Ok((_m2, l)) => Ok(ExceptionDateTimesV { timezone_id: tzid, values: l }),
        },
    }
}

/// Handle an `EXDATE:` line.
fn parse_exception_dates(input: Line) -> (r: Result<ExceptionDateTimes, ParserError>)
    ensures
        match spec_parse_exception_dates(input@) {
            Ok(v) => r matches Ok(a) && a@ == v,
            Err(e) => r matches Err(x) && x == e,
        },
{
    let mut line = input;
    let timezone_id = match take_tzid(&mut line.params) {
        Ok(v) => v,
        Err(e) => {
            return Err(e);
        },
    };
    let values = match parse_date_or_datetime_list(&mut line) {
        Ok(v) => v,
        Err(e) => {
            return Err(e);
        },
    };
    let r = ExceptionDateTimes { timezone_id, values };
    proof {
        assert(r@ =~= (spec_parse_exception_dates(input@)->Ok_0));
    }
    Ok(r)
}

// ---------------------------------------------------------------------------
// Event assembly
// ---------------------------------------------------------------------------

/// The accumulator for one event block.
pub struct EventBuilder {
    pub class: Option<Class>,
    pub created: Option<DateTime>,
    pub description: Option<AnnotatedText>,
    pub start: Option<DateOrDateTime>,
    pub geo: Option<crate::values::GeoLocation>,
    pub last_modified: Option<DateTime>,
    pub location: Option<AnnotatedText>,
    pub organizer: Option<Organizer>,
    pub priority: Option<Priority>,
    pub timestamp: Option<DateTime>,
    pub sequence: Option<u64>,
    pub status: Option<EventStatus>,
    pub summary: Option<AnnotatedText>,
    pub time_transparency: Option<TimeTransparency>,
    pub uid: Option<Vec<u8>>,
    pub recurrence_id: Option<RecurrenceId>,
    pub end: Option<EventEnd>,
    pub attachments: Vec<Attachment>,
    pub attendees: Vec<Attendee>,
    pub categories: Vec<Categories>,
    pub comments: Vec<Comment>,
    pub contacts: Vec<Contact>,
    pub exception_dates: Vec<ExceptionDateTimes>,
}

/// Spec-level form of the event accumulator.
#[verifier::ext_equal]
pub struct EventBuilderV {
    pub class: Option<ClassV>,
    pub created: Option<DateTime>,
    pub description: Option<AnnotatedTextV>,
    pub start: Option<DateOrDateTime>,
    pub geo: Option<(Seq<u8>, Seq<u8>)>,
    pub last_modified: Option<DateTime>,
    pub location: Option<AnnotatedTextV>,
    pub organizer: Option<OrganizerV>,
    pub priority: Option<Priority>,
    pub timestamp: Option<DateTime>,
    pub sequence: Option<u64>,
    pub status: Option<EventStatus>,
    pub summary: Option<AnnotatedTextV>,
    pub time_transparency: Option<TimeTransparency>,
    pub uid: Option<Seq<u8>>,
    pub recurrence_id: Option<RecurrenceIdV>,
    pub end: Option<EventEndV>,
    pub attachments: Seq<AttachmentV>,
    pub attendees: Seq<AttendeeV>,
    pub categories: Seq<CategoriesV>,
    pub comments: Seq<AnnotatedTextV>,
    pub contacts: Seq<AnnotatedTextV>,
    pub exception_dates: Seq<ExceptionDateTimesV>,
}

impl View for EventBuilder {
    type V = EventBuilderV;

    open spec fn view(&self) -> EventBuilderV {
        EventBuilderV {
            class: match &self.class {
                Some(v) => Some(v@),
                None => None,
            },
            created: self.created,
            description: match &self.description {
                Some(v) => Some(v@),
                None => None,
            },
            start: self.start,
            geo: match &self.geo {
                Some(g) => Some((g.latitude@, g.longitude@)),
                None => None,
            },
            last_modified: self.last_modified,
            location: match &self.location {
                Some(v) => Some(v@),
                None => None,
            },
            organizer: match &self.organizer {
                Some(v) => Some(v@),
                None => None,
            },
            priority: self.priority,
            timestamp: self.timestamp,
            sequence: self.sequence,
            status: self.status,
            summary: match &self.summary {
                Some(v) => Some(v@),
                None => None,
            },
            time_transparency: self.time_transparency,
            uid: match &self.uid {
                Some(v) => Some(v@),
                None => None,
            },
            recurrence_id: match &self.recurrence_id {
                Some(v) => Some(v@),
                None => None,
            },
            end: match &self.end {
                Some(v) => Some(v@),
                None => None,
            },
            attachments: self.attachments@.map_values(|a: Attachment| a@),
            attendees: self.attendees@.map_values(|a: Attendee| a@),
            categories: self.categories@.map_values(|a: Categories| a@),
            comments: self.comments@.map_values(|a: Comment| a@),
            contacts: self.contacts@.map_values(|a: Contact| a@),
            exception_dates: self.exception_dates@.map_values(|a: ExceptionDateTimes| a@),
        }
    }
}

/// A fresh event accumulator: everything absent.
pub open spec fn spec_event_builder_new() -> EventBuilderV {
    EventBuilderV {
        class: None,
        created: None,
        description: None,
        start: None,
        geo: None,
        last_modified: None,
        location: None,
        organizer: None,
        priority: None,
        timestamp: None,
        sequence: None,
        status: None,
        summary: None,
        time_transparency: None,
        uid: None,
        recurrence_id: None,
        end: None,
        attachments: Seq::<AttachmentV>::empty(),
        attendees: Seq::<AttendeeV>::empty(),
        categories: Seq::<CategoriesV>::empty(),
        comments: Seq::<AnnotatedTextV>::empty(),
        contacts: Seq::<AnnotatedTextV>::empty(),
        exception_dates: Seq::<ExceptionDateTimesV>::empty(),
    }
}

/// One property line applied to the event accumulator: a recognized name
/// parses its value and fills its slot (a filled at-most-once slot is a
/// duplicate error), an unrecognized one is ignored.
pub open spec fn spec_event_step(b: EventBuilderV, lv: LineV) -> Result<
    EventBuilderV,
    ParserError,
> {
    if lv.name.is_iana_ci(crate::keywords::kw_class()) {
        match spec_parse_class(lv.value) {
            Err(e) => Err(e),
            Ok(c) => if b.class is Some {
                Err(ParserError { kind: ParserErrorKind::DuplicateProp { prop: PropName::Class } })
            } else {
                Ok(EventBuilderV { class: Some(c), ..b })
            },
        }
    } else if lv.name.is_iana_ci(crate::keywords::kw_created()) {
        match crate::types::spec_parse_datetime(lv.value) {
            Err(e) => Err(e),
            Ok((_r, dt)) => if b.created is Some {
                Err(ParserError { kind: ParserErrorKind::DuplicateProp { prop: PropName::Created } })
            } else if !dt.time.utc {
                Err(ParserError { kind: ParserErrorKind::ExpectedUtc })
            } else {
                Ok(EventBuilderV { created: Some(dt), ..b })
            },
        }
    } else if lv.name.is_iana_ci(crate::keywords::kw_description()) {
        match spec_parse_annotated_text(lv) {
            Err(e) => Err(e),
            Ok(t) => if b.description is Some {
                Err(
                    ParserError { kind: ParserErrorKind::DuplicateProp { prop: PropName::Description } },
                )
            } else {
                Ok(EventBuilderV { description: Some(t), ..b })
            },
        }
    } else if lv.name.is_iana_ci(crate::keywords::kw_dtstart()) {
        match crate::types::spec_parse_date_or_datetime(lv.value) {
            Err(e) => Err(e),
            Ok((_r, d)) => if b.start is Some {
                Err(ParserError { kind: ParserErrorKind::DuplicateProp { prop: PropName::DtStart } })
            } else {
                Ok(EventBuilderV { start: Some(d), ..b })
            },
        }
    } else if lv.name.is_iana_ci(crate::keywords::kw_geo()) {
        match crate::values::spec_parse_geo(lv.value) {
            Err(e) => Err(e),
            Ok(g) => if b.geo is Some {
                Err(ParserError { kind: ParserErrorKind::DuplicateProp { prop: PropName::Geo } })
            } else {
                Ok(EventBuilderV { geo: Some(g), ..b })
            },
        }
    } else if lv.name.is_iana_ci(crate::keywords::kw_last_modified()) {
        match crate::types::spec_parse_datetime(lv.value) {
            Err(e) => Err(e),
            Ok((_r, dt)) => if b.last_modified is Some {
                Err(
                    ParserError { kind: ParserErrorKind::DuplicateProp { prop: PropName::LastModified } },
                )
            } else {
                Ok(EventBuilderV { last_modified: Some(dt), ..b })
            },
        }
    } else if lv.name.is_iana_ci(crate::keywords::kw_location()) {
        match spec_parse_annotated_text(lv) {
            Err(e) => Err(e),
            Ok(t) => if b.location is Some {
                Err(ParserError { kind: ParserErrorKind::DuplicateProp { prop: PropName::Location } })
            } else {
                Ok(EventBuilderV { location: Some(t), ..b })
            },
        }
    } else if lv.name.is_iana_ci(crate::keywords::kw_organizer()) {
        match spec_parse_organizer(lv) {
            Err(e) => Err(e),
            Ok(o) => if b.organizer is Some {
                Err(
                    ParserError { kind: ParserErrorKind::DuplicateProp { prop: PropName::Organizer } },
                )
            } else {
                Ok(EventBuilderV { organizer: Some(o), ..b })
            },
        }
    } else if lv.name.is_iana_ci(crate::keywords::kw_priority()) {
        match crate::values::spec_parse_priority(lv.value) {
            Err(e) => Err(e),
            Ok(p) => if b.priority is Some {
                Err(ParserError { kind: ParserErrorKind::DuplicateProp { prop: PropName::Priority } })
            } else {
                Ok(EventBuilderV { priority: Some(p), ..b })
            },
        }
    } else if lv.name.is_iana_ci(crate::keywords::kw_dtstamp()) {
        match crate::types::spec_parse_datetime(lv.value) {
            Err(e) => Err(e),
            Ok((_r, dt)) => if b.timestamp is Some {
                Err(ParserError { kind: ParserErrorKind::DuplicateProp { prop: PropName::DtStamp } })
            } else {
                Ok(EventBuilderV { timestamp: Some(dt), ..b })
            },
        }
    } else if lv.name.is_iana_ci(crate::keywords::kw_seq_prop()) {
        match crate::values::spec_parse_u64_all(lv.value) {
            Err(e) => Err(e),
            Ok(n) => if b.sequence is Some {
                Err(ParserError { kind: ParserErrorKind::DuplicateProp { prop: PropName::Sequence } })
            } else {
                Ok(EventBuilderV { sequence: Some(n), ..b })
            },
        }
    } else if lv.name.is_iana_ci(crate::keywords::kw_status()) {
        match spec_parse_event_status(lv.value) {
            Err(e) => Err(e),
            Ok(st) => if b.status is Some {
                Err(ParserError { kind: ParserErrorKind::DuplicateProp { prop: PropName::Status } })
            } else {
                Ok(EventBuilderV { status: Some(st), ..b })
            },
        }
    } else if lv.name.is_iana_ci(crate::keywords::kw_summary()) {
        match spec_parse_annotated_text(lv) {
            Err(e) => Err(e),
            Ok(t) => if b.summary is Some {
                Err(ParserError { kind: ParserErrorKind::DuplicateProp { prop: PropName::Summary } })
            } else {
                Ok(EventBuilderV { summary: Some(t), ..b })
            },
        }
    } else if lv.name.is_iana_ci(crate::keywords::kw_transp()) {
        match spec_parse_time_transparency(lv.value) {
            Err(e) => Err(e),
            Ok(t) => if b.time_transparency is Some {
                Err(ParserError { kind: ParserErrorKind::DuplicateProp { prop: PropName::Transp } })
            } else {
                Ok(EventBuilderV { time_transparency: Some(t), ..b })
            },
        }
    } else if lv.name.is_iana_ci(crate::keywords::kw_uid()) {
        if b.uid is Some {
            Err(ParserError { kind: ParserErrorKind::DuplicateProp { prop: PropName::Uid } })
        } else {
            Ok(EventBuilderV { uid: Some(lv.value), ..b })
        }
    } else if lv.name.is_iana_ci(crate::keywords::kw_recurrence_id()) {
        match spec_parse_recurrence_id(lv) {
            Err(e) => Err(e),
            Ok(rid) => if b.recurrence_id is Some {
                Err(
                    ParserError { kind: ParserErrorKind::DuplicateProp { prop: PropName::RecurrenceId } },
                )
            } else {
                Ok(EventBuilderV { recurrence_id: Some(rid), ..b })
            },
        }
    } else if lv.name.is_iana_ci(crate::keywords::kw_dtend()) {
        match spec_parse_datetime_end(lv) {
            Err(e) => Err(e),
            Ok(en) => if b.end is Some {
                Err(ParserError { kind: ParserErrorKind::DuplicateProp { prop: PropName::End } })
            } else {
                Ok(EventBuilderV { end: Some(en), ..b })
            },
        }
    } else if lv.name.is_iana_ci(crate::keywords::kw_duration()) {
        match crate::types::spec_parse_duration(lv.value) {
            Err(e) => Err(e),
            Ok((_r, d)) => if b.end is Some {
                Err(ParserError { kind: ParserErrorKind::DuplicateProp { prop: PropName::End } })
            } else {
                Ok(EventBuilderV { end: Some(EventEndV::Duration(d)), ..b })
            },
        }
    } else if lv.name.is_iana_ci(crate::keywords::kw_attachment()) {
        match spec_parse_attachment(lv) {
            Err(e) => Err(e),
            Ok(a) => Ok(EventBuilderV { attachments: b.attachments.push(a), ..b }),
        }
    } else if lv.name.is_iana_ci(crate::keywords::kw_attendee()) {
        match spec_parse_attendee(lv) {
            Err(e) => Err(e),
            Ok(a) => Ok(EventBuilderV { attendees: b.attendees.push(a), ..b }),
        }
    } else if lv.name.is_iana_ci(crate::keywords::kw_categories()) {
        match spec_parse_categories(lv) {
            Err(e) => Err(e),
            Ok(a) => Ok(EventBuilderV { categories: b.categories.push(a), ..b }),
        }
    } else if lv.name.is_iana_ci(crate::keywords::kw_comment()) {
        match spec_parse_commentish(lv) {
            Err(e) => Err(e),
            Ok(a) => Ok(EventBuilderV { comments: b.comments.push(a), ..b }),
        }
    } else if lv.name.is_iana_ci(crate::keywords::kw_contact()) {
        match spec_parse_commentish(lv) {
            Err(e) => Err(e),
            Ok(a) => Ok(EventBuilderV { contacts: b.contacts.push(a), ..b }),
        }
    } else if lv.name.is_iana_ci(crate::keywords::kw_exdate()) {
        match spec_parse_exception_dates(lv) {
            Err(e) => Err(e),
            Ok(a) => Ok(EventBuilderV { exception_dates: b.exception_dates.push(a), ..b }),
        }
    } else {
        Ok(b)
    }
}

/// Finish an event: the UID is required, the classification defaults to
/// public and the transparency to opaque.
pub open spec fn spec_event_build(b: EventBuilderV) -> Result<EventV, ParserError> {
    match b.uid {
        None => Err(ParserError { kind: ParserErrorKind::MissingProp { prop: PropName::Uid } }),
        Some(uid) => Ok(
            EventV {
                class: (match b.class {
                    Some(c) => c,
                    None => ClassV::Public,
                }),
                created: b.created,
                last_modified: b.last_modified,
                description: b.description,
                start: b.start,
                location: b.location,
                geo_location: b.geo,
                organizer: b.organizer,
                priority: b.priority,
                timestamp: b.timestamp,
                sequence: b.sequence,
                status: b.status,
                summary: b.summary,
                time_transparency: (match b.time_transparency {
                    Some(t) => t,
                    None => TimeTransparency::Opaque,
                }),
                uid,
                recurrence_id: b.recurrence_id,
                end: b.end,
                attachments: b.attachments,
                attendees: b.attendees,
                categories: b.categories,
                comments: b.comments,
                contacts: b.contacts,
                exception_dates: b.exception_dates,
            },
        ),
    }
}

impl EventBuilder {
    /// A fresh accumulator.
    fn new() -> (r: EventBuilder)
        ensures
            r@ == spec_event_builder_new(),
    {
        let b = EventBuilder {
            class: None,
            created: None,
            description: None,
            start: None,
            geo: None,
            last_modified: None,
            location: None,
            organizer: None,
            priority: None,
            timestamp: None,
            sequence: None,
            status: None,
            summary: None,
            time_transparency: None,
            uid: None,
            recurrence_id: None,
            end: None,
            attachments: Vec::new(),
            attendees: Vec::new(),
            categories: Vec::new(),
            comments: Vec::new(),
            contacts: Vec::new(),
            exception_dates: Vec::new(),
        };
        proof {
            assert(b@ =~= spec_event_builder_new());
        }
        b
    }

    /// Finish the event, checking the required UID.
    pub fn build(self) -> (r: Result<Event, ParserError>)
        ensures
            match spec_event_build(self@) {
                Ok(ev) => r matches Ok(e) && e@ == ev,
                Err(e) => r matches Err(x) && x == e,
            },
    {
        let uid = match self.uid {
            None => {
                return Err(
                    ParserError { kind: ParserErrorKind::MissingProp { prop: PropName::Uid } },
                );
            },
            Some(u) => u,
        };
        let r = Event {
            class: (match self.class {
                Some(c) => c,
                None => Class::Public,
            }),
            created: self.created,
            last_modified: self.last_modified,
            description: self.description,
            start: self.start,
            location: self.location,
            geo_location: self.geo,
            organizer: self.organizer,
            priority: self.priority,
            timestamp: self.timestamp,
            sequence: self.sequence,
            status: self.status,
            summary: self.summary,
            time_transparency: (match self.time_transparency {
                Some(t) => t,
                None => TimeTransparency::Opaque,
            }),
            uid,
            recurrence_id: self.recurrence_id,
            end: self.end,
            attachments: self.attachments,
            attendees: self.attendees,
            categories: self.categories,
            comments: self.comments,
            contacts: self.contacts,
            exception_dates: self.exception_dates,
        };
        proof {
            assert(r@ =~= (spec_event_build(self@)->Ok_0));
        }
        Ok(r)
    }
}

/// Apply one property line to the event accumulator.
#[verifier::rlimit(60)]
#[verifier::spinoff_prover]
fn event_step(b: EventBuilder, line: Line) -> (r: Result<EventBuilder, ParserError>)
    ensures
        match spec_event_step(b@, line@) {
            Ok(b2) => r matches Ok(nb) && nb@ == b2,
            Err(e) => r matches Err(x) && x == e,
        },
{
    let ghost bv = b@;
    let ghost lv = line@;
    let mut nb = b;
    if line.name.matches_iana(crate::keywords::lit_class().as_slice()) {
        let c = match parse_class(line.value) {
            Ok(c) => c,
            Err(e) => {
                return Err(e);
            },
        };
        if nb.class.is_some() {
            return Err(ParserError { kind: ParserErrorKind::DuplicateProp { prop: PropName::Class } });
        }
        nb.class = Some(c);
        proof {
            assert(nb@ =~= (spec_event_step(bv, lv)->Ok_0));
        }
        Ok(nb)
    } else if line.name.matches_iana(crate::keywords::lit_created().as_slice()) {
        let dt = match DateTime::parse(line.value.as_slice()) {
            Ok(v) => v.1,
            Err(e) => {
                return Err(e);
            },
        };
        if nb.created.is_some() {
            return Err(ParserError { kind: ParserErrorKind::DuplicateProp { prop: PropName::Created } });
        }
        if !dt.time.utc {
            return Err(ParserError { kind: ParserErrorKind::ExpectedUtc });
        }
        nb.created = Some(dt);
        proof {
            assert(nb@ =~= (spec_event_step(bv, lv)->Ok_0));
        }
        Ok(nb)
    } else if line.name.matches_iana(crate::keywords::lit_description().as_slice()) {
        let t = match parse_annotated_text(line) {
            Ok(v) => v,
            Err(e) => {
                return Err(e);
            },
        };
        if nb.description.is_some() {
            return Err(
                ParserError { kind: ParserErrorKind::DuplicateProp { prop: PropName::Description } },
            );
        }
        nb.description = Some(t);
        proof {
            assert(nb@ =~= (spec_event_step(bv, lv)->Ok_0));
        }
        Ok(nb)
    } else if line.name.matches_iana(crate::keywords::lit_dtstart().as_slice()) {
        let d = match DateOrDateTime::parse(line.value.as_slice()) {
            Ok(v) => v.1,
            Err(e) => {
                return Err(e);
            },
        };
        if nb.start.is_some() {
            return Err(ParserError { kind: ParserErrorKind::DuplicateProp { prop: PropName::DtStart } });
        }
        nb.start = Some(d);
        proof {
            assert(nb@ =~= (spec_event_step(bv, lv)->Ok_0));
        }
        Ok(nb)
    } else if line.name.matches_iana(crate::keywords::lit_geo().as_slice()) {
        let g = match crate::values::GeoLocation::parse(line.value.as_slice()) {
            Ok(v) => v,
            Err(e) => {
                return Err(e);
            },
        };
        if nb.geo.is_some() {
            return Err(ParserError { kind: ParserErrorKind::DuplicateProp { prop: PropName::Geo } });
        }
        nb.geo = Some(g);
        proof {
            assert(nb@ =~= (spec_event_step(bv, lv)->Ok_0));
        }
        Ok(nb)
    } else if line.name.matches_iana(crate::keywords::lit_last_modified().as_slice()) {
        let dt = match DateTime::parse(line.value.as_slice()) {
            Ok(v) => v.1,
            Err(e) => {
                return Err(e);
            },
        };
        if nb.last_modified.is_some() {
            return Err(
                ParserError { kind: ParserErrorKind::DuplicateProp { prop: PropName::LastModified } },
            );
        }
        nb.last_modified = Some(dt);
        proof {
            assert(nb@ =~= (spec_event_step(bv, lv)->Ok_0));
        }
        Ok(nb)
    } else if line.name.matches_iana(crate::keywords::lit_location().as_slice()) {
        let t = match parse_annotated_text(line) {
            Ok(v) => v,
            Err(e) => {
                return Err(e);
            },
        };
        if nb.location.is_some() {
            return Err(
                ParserError { kind: ParserErrorKind::DuplicateProp { prop: PropName::Location } },
            );
        }
        nb.location = Some(t);
        proof {
            assert(nb@ =~= (spec_event_step(bv, lv)->Ok_0));
        }
        Ok(nb)
    } else if line.name.matches_iana(crate::keywords::lit_organizer().as_slice()) {
        let o = match parse_organizer(line) {
            Ok(v) => v,
            Err(e) => {
                return Err(e);
            },
        };
        if nb.organizer.is_some() {
            return Err(
                ParserError { kind: ParserErrorKind::DuplicateProp { prop: PropName::Organizer } },
            );
        }
        nb.organizer = Some(o);
        proof {
            assert(nb@ =~= (spec_event_step(bv, lv)->Ok_0));
        }
        Ok(nb)
    } else if line.name.matches_iana(crate::keywords::lit_priority().as_slice()) {
        let p = match Priority::parse(line.value.as_slice()) {
            Ok(v) => v,
            Err(e) => {
                return Err(e);
            },
        };
        if nb.priority.is_some() {
            return Err(
                ParserError { kind: ParserErrorKind::DuplicateProp { prop: PropName::Priority } },
            );
        }
        nb.priority = Some(p);
        proof {
            assert(nb@ =~= (spec_event_step(bv, lv)->Ok_0));
        }
        Ok(nb)
    } else if line.name.matches_iana(crate::keywords::lit_dtstamp().as_slice()) {
        let dt = match DateTime::parse(line.value.as_slice()) {
            Ok(v) => v.1,
            Err(e) => {
                return Err(e);
            },
        };
        if nb.timestamp.is_some() {
            return Err(ParserError { kind: ParserErrorKind::DuplicateProp { prop: PropName::DtStamp } });
        }
        nb.timestamp = Some(dt);
        proof {
            assert(nb@ =~= (spec_event_step(bv, lv)->Ok_0));
        }
        Ok(nb)
    } else if line.name.matches_iana(crate::keywords::lit_seq_prop().as_slice()) {
        let n = match crate::values::parse_u64_all(line.value.as_slice()) {
            Ok(v) => v,
            Err(e) => {
                return Err(e);
            },
        };
        if nb.sequence.is_some() {
            return Err(
                ParserError { kind: ParserErrorKind::DuplicateProp { prop: PropName::Sequence } },
            );
        }
        nb.sequence = Some(n);
        proof {
            assert(nb@ =~= (spec_event_step(bv, lv)->Ok_0));
        }
        Ok(nb)
    } else if line.name.matches_iana(crate::keywords::lit_status().as_slice()) {
        let st = match parse_event_status(&line) {
            Ok(v) => v,
            Err(e) => {
                return Err(e);
            },
        };
        if nb.status.is_some() {
            return Err(ParserError { kind: ParserErrorKind::DuplicateProp { prop: PropName::Status } });
        }
        nb.status = Some(st);
        proof {
            assert(nb@ =~= (spec_event_step(bv, lv)->Ok_0));
        }
        Ok(nb)
    } else if line.name.matches_iana(crate::keywords::lit_summary().as_slice()) {
        let t = match parse_annotated_text(line) {
            Ok(v) => v,
            Err(e) => {
                return Err(e);
            },
        };
        if nb.summary.is_some() {
            return Err(ParserError { kind: ParserErrorKind::DuplicateProp { prop: PropName::Summary } });
        }
        nb.summary = Some(t);
        proof {
            assert(nb@ =~= (spec_event_step(bv, lv)->Ok_0));
        }
        Ok(nb)
    } else if line.name.matches_iana(crate::keywords::lit_transp().as_slice()) {
        let t = match parse_time_transparency(&line) {
            Ok(v) => v,
            Err(e) => {
                return Err(e);
            },
        };
        if nb.time_transparency.is_some() {
            return Err(ParserError { kind: ParserErrorKind::DuplicateProp { prop: PropName::Transp } });
        }
        nb.time_transparency = Some(t);
        proof {
            assert(nb@ =~= (spec_event_step(bv, lv)->Ok_0));
        }
        Ok(nb)
    } else if line.name.matches_iana(crate::keywords::lit_uid().as_slice()) {
        if nb.uid.is_some() {
            return Err(ParserError { kind: ParserErrorKind::DuplicateProp { prop: PropName::Uid } });
        }
        nb.uid = Some(line.value);
        proof {
            assert(nb@ =~= (spec_event_step(bv, lv)->Ok_0));
        }
        Ok(nb)
    } else if line.name.matches_iana(crate::keywords::lit_recurrence_id().as_slice()) {
        let rid = match parse_recurrence_id(line) {
            Ok(v) => v,
            Err(e) => {
                return Err(e);
            },
        };
        if nb.recurrence_id.is_some() {
            return Err(
                ParserError { kind: ParserErrorKind::DuplicateProp { prop: PropName::RecurrenceId } },
            );
        }
        nb.recurrence_id = Some(rid);
        proof {
            assert(nb@ =~= (spec_event_step(bv, lv)->Ok_0));
        }
        Ok(nb)
    } else if line.name.matches_iana(crate::keywords::lit_dtend().as_slice()) {
        let en = match parse_datetime_end(line) {
            Ok(v) => v,
            Err(e) => {
                return Err(e);
            },
        };
        if nb.end.is_some() {
            return Err(ParserError { kind: ParserErrorKind::DuplicateProp { prop: PropName::End } });
        }
        nb.end = Some(en);
        proof {
            assert(nb@ =~= (spec_event_step(bv, lv)->Ok_0));
        }
        Ok(nb)
    } else if line.name.matches_iana(crate::keywords::lit_duration().as_slice()) {
        let d = match Duration::parse(line.value.as_slice()) {
            Ok(v) => v.1,
            Err(e) => {
                return Err(e);
            },
        };
        if nb.end.is_some() {
            return Err(ParserError { kind: ParserErrorKind::DuplicateProp { prop: PropName::End } });
        }
        nb.end = Some(EventEnd::Duration(d));
        proof {
            assert(nb@ =~= (spec_event_step(bv, lv)->Ok_0));
        }
        Ok(nb)
    } else if line.name.matches_iana(crate::keywords::lit_attachment().as_slice()) {
        let a = match parse_attachment(line) {
            Ok(v) => v,
            Err(e) => {
                return Err(e);
            },
        };
        nb.attachments.push(a);
        proof {
            assert(nb@ =~= (spec_event_step(bv, lv)->Ok_0));
        }
        Ok(nb)
    } else if line.name.matches_iana(crate::keywords::lit_attendee().as_slice()) {
        let a = match parse_attendee(line) {
            Ok(v) => v,
            Err(e) => {
                return Err(e);
            },
        };
        nb.attendees.push(a);
        proof {
            assert(nb@ =~= (spec_event_step(bv, lv)->Ok_0));
        }
        Ok(nb)
    } else if line.name.matches_iana(crate::keywords::lit_categories().as_slice()) {
        let a = match parse_categories(line) {
            Ok(v) => v,
            Err(e) => {
                return Err(e);
            },
        };
        nb.categories.push(a);
        proof {
            assert(nb@ =~= (spec_event_step(bv, lv)->Ok_0));
        }
        Ok(nb)
    } else if line.name.matches_iana(crate::keywords::lit_comment().as_slice()) {
        let a = match parse_comment(line) {
            Ok(v) => v,
            Err(e) => {
                return Err(e);
            },
        };
        nb.comments.push(a);
        proof {
            assert(nb@ =~= (spec_event_step(bv, lv)->Ok_0));
        }
        Ok(nb)
    } else if line.name.matches_iana(crate::keywords::lit_contact().as_slice()) {
        let a = match parse_contact(line) {
            Ok(v) => v,
            Err(e) => {
                return Err(e);
            },
        };
        nb.contacts.push(a);
        proof {
            assert(nb@ =~= (spec_event_step(bv, lv)->Ok_0));
        }
        Ok(nb)
    } else if line.name.matches_iana(crate::keywords::lit_exdate().as_slice()) {
        let a = match parse_exception_dates(line) {
            Ok(v) => v,
            Err(e) => {
                return Err(e);
            },
        };
        nb.exception_dates.push(a);
        proof {
            assert(nb@ =~= (spec_event_step(bv, lv)->Ok_0));
        }
        Ok(nb)
    } else {
        Ok(nb)
    }
}

/// A skipped block is strictly shorter than what it was skipped from.
pub proof fn lemma_skip_block_len(rem: Seq<Seq<u8>>, depth: int)
    ensures
        (crate::lexer::spec_skip_block(rem, depth) matches Ok(r2) ==> r2.len() < rem.len()),
    decreases rem.len(),
{
    if rem.len() > 0 {
        match crate::line::spec_parse_line(rem[0]) {
            Err(_) => {},
            Ok(lv) => {
                let d2 = if lv.name.is_iana_ci(crate::keywords::kw_begin()) {
                    depth + 1
                } else if lv.name.is_iana_ci(crate::keywords::kw_end()) {
                    depth - 1
                } else {
                    depth
                };
                if d2 != 0 {
                    lemma_skip_block_len(rem.skip(1), d2);
                }
            },
        }
    }
}

/// An event block: properties applied in turn until the matching `END`
/// line; a nested `BEGIN` of any kind is skipped whole; end of input before
/// the `END` is an error.
pub open spec fn spec_parse_event(rem: Seq<Seq<u8>>, b: EventBuilderV) -> Result<
    (EventV, Seq<Seq<u8>>),
    ParserError,
>
    decreases rem.len(),
    via spec_parse_event_dec
{
    match crate::lexer::spec_take_next(rem) {
        Err(e) => Err(e),
        Ok(None) => Err(ParserError { kind: ParserErrorKind::UnexpectedEof }),
        Ok(Some((lv, rem2))) => {
            if lv.name.is_iana_ci(crate::keywords::kw_end()) {
                if lv.value == crate::keywords::kw_vevent() {
                    match spec_event_build(b) {
                        Err(e) => Err(e),
                        Ok(ev) => Ok((ev, rem2)),
                    }
                } else {
                    Err(ParserError { kind: ParserErrorKind::MismatchedEnd })
                }
            } else if lv.name.is_iana_ci(crate::keywords::kw_begin()) {
                match crate::lexer::spec_skip_block(rem2, 1) {
                    Err(e) => Err(e),
                    Ok(rem3) => spec_parse_event(rem3, b),
                }
            } else {
                match spec_event_step(b, lv) {
                    Err(e) => Err(e),
                    Ok(b2) => spec_parse_event(rem2, b2),
                }
            }
        },
    }
}

#[via_fn]
proof fn spec_parse_event_dec(rem: Seq<Seq<u8>>, b: EventBuilderV) {
    if rem.len() > 0 {
        lemma_skip_block_len(rem.skip(1), 1);
    }
}

/// Parsing an event block consumes at least its `END` line.
pub proof fn lemma_parse_event_len(rem: Seq<Seq<u8>>, b: EventBuilderV)
    ensures
        (spec_parse_event(rem, b) matches Ok(p) ==> p.1.len() < rem.len()),
    decreases rem.len(),
{
    match crate::lexer::spec_take_next(rem) {
        Err(_) => {},
        Ok(None) => {},
        Ok(Some((lv, rem2))) => {
            if lv.name.is_iana_ci(crate::keywords::kw_end()) {
            } else if lv.name.is_iana_ci(crate::keywords::kw_begin()) {
                lemma_skip_block_len(rem2, 1);
                match crate::lexer::spec_skip_block(rem2, 1) {
                    Err(_) => {},
                    Ok(rem3) => {
                        lemma_parse_event_len(rem3, b);
                    },
                }
            } else {
                match spec_event_step(b, lv) {
                    Err(_) => {},
                    Ok(b2) => {
                        lemma_parse_event_len(rem2, b2);
                    },
                }
            }
        },
    }
}

impl Event {
    /// Parse an event block (its `BEGIN` line already consumed).
    fn parse(parser: &mut crate::lexer::Lexer) -> (r: Result<Event, ParserError>)
        requires
            old(parser).wf(),
        ensures
            final(parser).wf(),
            match spec_parse_event(old(parser).remaining(), spec_event_builder_new()) {
                Ok((ev, rem2)) => r matches Ok(e) && e@ == ev && final(parser).remaining() == rem2,
                Err(e) => r matches Err(x) && x == e,
            },
    {
        let ghost rem_start = parser.remaining();
        let mut builder = EventBuilder::new();
        loop
            invariant
                parser.wf(),
                rem_start == old(parser).remaining(),
                spec_parse_event(rem_start, spec_event_builder_new()) == spec_parse_event(
                    parser.remaining(),
                    builder@,
                ),
            decreases parser.remaining().len(),
        {
            let ghost rem0 = parser.remaining();
            let line = match crate::lexer::Lexer::take_next(parser) {
                Err(e) => {
                    return Err(e);
                },
                Ok(None) => {
                    return Err(ParserError { kind: ParserErrorKind::UnexpectedEof });
                },
                Ok(Some(l)) => l,
            };
            if line.name.matches_iana(crate::keywords::lit_end().as_slice()) {
                if !eq_bytes(line.value.as_slice(), crate::keywords::lit_vevent().as_slice()) {
                    return Err(ParserError { kind: ParserErrorKind::MismatchedEnd });
                }
                return builder.build();
            } else if line.name.matches_iana(crate::keywords::lit_begin().as_slice()) {
                match crate::lexer::Lexer::skip_current(parser) {
                    Ok(()) => {},
                    Err(e) => {
                        return Err(e);
                    },
                }
                proof {
                    lemma_skip_block_len(rem0.skip(1), 1);
                }
            } else {
                builder = match event_step(builder, line) {
                    Ok(b2) => b2,
                    Err(e) => {
                        return Err(e);
                    },
                };
            }
        }
    }
}

// ---------------------------------------------------------------------------
// Calendar assembly
// ---------------------------------------------------------------------------

/// The accumulator for one calendar block.
pub struct CalendarBuilder {
    pub prod_id: Option<Vec<u8>>,
    pub version_set: bool,
    pub cal_scale: Option<CalScale>,
    pub method: Option<Vec<u8>>,
    pub events: Vec<Event>,
}

/// Spec-level form of the calendar accumulator.
#[verifier::ext_equal]
pub struct CalendarBuilderV {
    pub prod_id: Option<Seq<u8>>,
    pub version_set: bool,
    pub cal_scale: Option<CalScaleV>,
    pub method: Option<Seq<u8>>,
    pub events: Seq<EventV>,
}

impl View for CalendarBuilder {
    type V = CalendarBuilderV;

    open spec fn view(&self) -> CalendarBuilderV {
        CalendarBuilderV {
            prod_id: match &self.prod_id {
                Some(v) => Some(v@),
                None => None,
            },
            version_set: self.version_set,
            cal_scale: match &self.cal_scale {
                Some(v) => Some(v@),
                None => None,
            },
            method: match &self.method {
                Some(v) => Some(v@),
                None => None,
            },
            events: self.events@.map_values(|e: Event| e@),
        }
    }
}

/// A fresh calendar accumulator.
pub open spec fn spec_cal_builder_new() -> CalendarBuilderV {
    CalendarBuilderV {
        prod_id: None,
        version_set: false,
        cal_scale: None,
        method: None,
        events: Seq::<EventV>::empty(),
    }
}

/// Finish a calendar: the product id is required, the scale defaults to
/// Gregorian.
pub open spec fn spec_cal_build(b: CalendarBuilderV) -> Result<CalendarV, ParserError> {
    match b.prod_id {
        None => Err(ParserError { kind: ParserErrorKind::MissingProp { prop: PropName::ProdId } }),
        Some(prod_id) => Ok(
            CalendarV {
                events: b.events,
                prod_id,
                cal_scale: (match b.cal_scale {
                    Some(c) => c,
                    None => CalScaleV::Gregorian,
                }),
                method: b.method,
            },
        ),
    }
}

impl CalendarBuilder {
    /// A fresh accumulator.
    pub fn new() -> (r: CalendarBuilder)
        ensures
            r@ == spec_cal_builder_new(),
    {
        let b = CalendarBuilder {
            prod_id: None,
            version_set: false,
            cal_scale: None,
            method: None,
            events: Vec::new(),
        };
        proof {
            assert(b@ =~= spec_cal_builder_new());
        }
        b
    }

    /// Finish the calendar, checking the required product id.
    pub fn build(self) -> (r: Result<Calendar, ParserError>)
        ensures
            match spec_cal_build(self@) {
                Ok(c) => r matches Ok(cal) && cal@ == c,
                Err(e) => r matches Err(x) && x == e,
            },
    {
        let prod_id = match self.prod_id {
            None => {
                return Err(
                    ParserError { kind: ParserErrorKind::MissingProp { prop: PropName::ProdId } },
                );
            },
            Some(p) => p,
        };
        let r = Calendar {
            events: self.events,
            prod_id,
            cal_scale: (match self.cal_scale {
                Some(c) => c,
                None => CalScale::Gregorian,
            }),
            method: self.method,
        };
        proof {
            assert(r@ =~= (spec_cal_build(self@)->Ok_0));
        }
        Ok(r)
    }
}

/// One non-structural line applied to the calendar accumulator: the four
/// calendar properties each at most once (`VERSION` required to be 2.0),
/// anything unrecognized ignored.
pub open spec fn spec_cal_step(b: CalendarBuilderV, lv: LineV) -> Result<
    CalendarBuilderV,
    ParserError,
> {
    if lv.name.is_iana_ci(crate::keywords::kw_prodid()) {
        match spec_parse_prodid(lv) {
            Err(e) => Err(e),
            Ok(p) => if b.prod_id is Some {
                Err(ParserError { kind: ParserErrorKind::DuplicateProp { prop: PropName::ProdId } })
            } else {
                Ok(CalendarBuilderV { prod_id: Some(p), ..b })
            },
        }
    } else if lv.name.is_iana_ci(crate::keywords::kw_version()) {
        match spec_parse_version(lv) {
            Err(e) => Err(e),
            Ok(()) => if b.version_set {
                Err(ParserError { kind: ParserErrorKind::DuplicateProp { prop: PropName::Version } })
            } else {
                Ok(b)
            },
        }
    } else if lv.name.is_iana_ci(crate::keywords::kw_calscale()) {
        match spec_parse_cal_scale(lv) {
            Err(e) => Err(e),
            Ok(c) => if b.cal_scale is Some {
                Err(ParserError { kind: ParserErrorKind::DuplicateProp { prop: PropName::CalScale } })
            } else {
                Ok(CalendarBuilderV { cal_scale: Some(c), ..b })
            },
        }
    } else if lv.name.is_iana_ci(crate::keywords::kw_method()) {
        if !valid_name_token(lv.value) {
            Err(ParserError { kind: ParserErrorKind::InvalidName })
        } else if b.method is Some {
            Err(ParserError { kind: ParserErrorKind::DuplicateProp { prop: PropName::Method } })
        } else {
            Ok(CalendarBuilderV { method: Some(lv.value), ..b })
        }
    } else {
        Ok(b)
    }
}

/// The body of a calendar block: lines applied in turn until the matching
/// `END:VCALENDAR`; `BEGIN:VEVENT` parses an event, any other `BEGIN` is
/// skipped whole; end of input before the `END` is an error.
pub open spec fn spec_cal_loop(rem: Seq<Seq<u8>>, b: CalendarBuilderV) -> Result<
    (CalendarV, Seq<Seq<u8>>),
    ParserError,
>
    decreases rem.len(),
    via spec_cal_loop_dec
{
    match crate::lexer::spec_take_next(rem) {
        Err(e) => Err(e),
        Ok(None) => Err(ParserError { kind: ParserErrorKind::UnexpectedEof }),
        Ok(Some((lv, rem2))) => {
            if lv.name.is_iana_ci(crate::keywords::kw_end()) {
                if lv.value == crate::keywords::kw_vcalendar() {
                    match spec_cal_build(b) {
                        Err(e) => Err(e),
                        Ok(c) => Ok((c, rem2)),
                    }
                } else {
                    Err(ParserError { kind: ParserErrorKind::MismatchedEnd })
                }
            } else if lv.name.is_iana_ci(crate::keywords::kw_begin()) {
                if lv.value == crate::keywords::kw_vevent() {
                    match spec_parse_event(rem2, spec_event_builder_new()) {
                        Err(e) => Err(e),
                        Ok((ev, rem3)) => spec_cal_loop(
                            rem3,
                            CalendarBuilderV { events: b.events.push(ev), ..b },
                        ),
                    }
                } else {
                    match crate::lexer::spec_skip_block(rem2, 1) {
                        Err(e) => Err(e),
                        Ok(rem3) => spec_cal_loop(rem3, b),
                    }
                }
            } else {
                match spec_cal_step(b, lv) {
                    Err(e) => Err(e),
                    Ok(b2) => spec_cal_loop(rem2, b2),
                }
            }
        },
    }
}

#[via_fn]
proof fn spec_cal_loop_dec(rem: Seq<Seq<u8>>, b: CalendarBuilderV) {
    if rem.len() > 0 {
        lemma_parse_event_len(rem.skip(1), spec_event_builder_new());
        lemma_skip_block_len(rem.skip(1), 1);
    }
}

/// Parsing a calendar's body consumes at least its `END` line.
pub proof fn lemma_cal_loop_len(rem: Seq<Seq<u8>>, b: CalendarBuilderV)
    ensures
        (spec_cal_loop(rem, b) matches Ok(p) ==> p.1.len() < rem.len()),
    decreases rem.len(),
{
    match crate::lexer::spec_take_next(rem) {
        Err(_) => {},
        Ok(None) => {},
        Ok(Some((lv, rem2))) => {
            if lv.name.is_iana_ci(crate::keywords::kw_end()) {
            } else if lv.name.is_iana_ci(crate::keywords::kw_begin()) {
                if lv.value == crate::keywords::kw_vevent() {
                    lemma_parse_event_len(rem2, spec_event_builder_new());
                    match spec_parse_event(rem2, spec_event_builder_new()) {
                        Err(_) => {},
                        Ok((ev, rem3)) => {
                            lemma_cal_loop_len(
                                rem3,
                                CalendarBuilderV { events: b.events.push(ev), ..b },
                            );
                        },
                    }
                } else {
                    lemma_skip_block_len(rem2, 1);
                    match crate::lexer::spec_skip_block(rem2, 1) {
                        Err(_) => {},
                        Ok(rem3) => {
                            lemma_cal_loop_len(rem3, b);
                        },
                    }
                }
            } else {
                match spec_cal_step(b, lv) {
                    Err(_) => {},
                    Ok(b2) => {
                        lemma_cal_loop_len(rem2, b2);
                    },
                }
            }
        },
    }
}

/// A whole calendar block: the first line must be `BEGIN:VCALENDAR`, then
/// the body runs to the matching `END`.
pub open spec fn spec_parse_calendar(rem: Seq<Seq<u8>>) -> Result<
    (CalendarV, Seq<Seq<u8>>),
    ParserError,
> {
    match crate::lexer::spec_take_next(rem) {
        Err(e) => Err(e),
        Ok(None) => Err(ParserError { kind: ParserErrorKind::UnexpectedEof }),
        Ok(Some((lv, rem2))) => {
            if lv.name.is_iana_ci(crate::keywords::kw_begin()) && lv.value
                == crate::keywords::kw_vcalendar() {
                spec_cal_loop(rem2, spec_cal_builder_new())
            } else {
                Err(ParserError { kind: ParserErrorKind::ExpectedBegin })
            }
        },
    }
}

/// One non-structural line applied to the calendar accumulator.
fn cal_step(b: CalendarBuilder, line: Line) -> (r: Result<CalendarBuilder, ParserError>)
    ensures
        match spec_cal_step(b@, line@) {
            Ok(b2) => r matches Ok(nb) && nb@ == b2,
            Err(e) => r matches Err(x) && x == e,
        },
{
    let ghost bv = b@;
    let ghost lv = line@;
    let mut nb = b;
    if line.name.matches_iana(crate::keywords::lit_prodid().as_slice()) {
        let p = match parse_prodid(line) {
            Ok(v) => v,
            Err(e) => {
                return Err(e);
            },
        };
        if nb.prod_id.is_some() {
            return Err(ParserError { kind: ParserErrorKind::DuplicateProp { prop: PropName::ProdId } });
        }
        nb.prod_id = Some(p);
        proof {
            assert(nb@ =~= (spec_cal_step(bv, lv)->Ok_0));
        }
        Ok(nb)
    } else if line.name.matches_iana(crate::keywords::lit_version().as_slice()) {
        match parse_version(line) {
            Ok(()) => {},
            Err(e) => {
                return Err(e);
            },
        }
        if nb.version_set {
            return Err(
                ParserError { kind: ParserErrorKind::DuplicateProp { prop: PropName::Version } },
            );
        }
        proof {
            assert(nb@ =~= (spec_cal_step(bv, lv)->Ok_0));
        }
        Ok(nb)
    } else if line.name.matches_iana(crate::keywords::lit_calscale().as_slice()) {
        let c = match parse_cal_scale(line) {
            Ok(v) => v,
            Err(e) => {
                return Err(e);
            },
        };
        if nb.cal_scale.is_some() {
            return Err(
                ParserError { kind: ParserErrorKind::DuplicateProp { prop: PropName::CalScale } },
            );
        }
        nb.cal_scale = Some(c);
        proof {
            assert(nb@ =~= (spec_cal_step(bv, lv)->Ok_0));
        }
        Ok(nb)
    } else if line.name.matches_iana(crate::keywords::lit_method().as_slice()) {
        match crate::helpers::check_iana_token(line.value.as_slice()) {
            Ok(()) => {},
            Err(e) => {
                return Err(e);
            },
        }
        if nb.method.is_some() {
            return Err(ParserError { kind: ParserErrorKind::DuplicateProp { prop: PropName::Method } });
        }
        nb.method = Some(line.value);
        proof {
            assert(nb@ =~= (spec_cal_step(bv, lv)->Ok_0));
        }
        Ok(nb)
    } else {
        Ok(nb)
    }
}

impl Calendar {
    /// Parse one whole calendar block, `BEGIN:VCALENDAR` first.
    pub fn parse(parser: &mut crate::lexer::Lexer) -> (r: Result<Calendar, ParserError>)
        requires
            old(parser).wf(),
        ensures
            final(parser).wf(),
            match spec_parse_calendar(old(parser).remaining()) {
                Ok((c, rem2)) => r matches Ok(cal) && cal@ == c && final(parser).remaining()
                    == rem2,
                Err(e) => r matches Err(x) && x == e,
            },
    {
        let begin = match crate::lexer::Lexer::take_next(parser) {
            Err(e) => {
                return Err(e);
            },
            Ok(None) => {
                return Err(ParserError { kind: ParserErrorKind::UnexpectedEof });
            },
            Ok(Some(l)) => l,
        };
        if !(begin.name.matches_iana(crate::keywords::lit_begin().as_slice()) && eq_bytes(
            begin.value.as_slice(),
            crate::keywords::lit_vcalendar().as_slice(),
        )) {
            return Err(ParserError { kind: ParserErrorKind::ExpectedBegin });
        }
        let ghost rem_start = parser.remaining();
        let mut builder = CalendarBuilder::new();
        loop
            invariant
                parser.wf(),
                spec_parse_calendar(old(parser).remaining()) == spec_cal_loop(
                    rem_start,
                    spec_cal_builder_new(),
                ),
                spec_cal_loop(rem_start, spec_cal_builder_new()) == spec_cal_loop(
                    parser.remaining(),
                    builder@,
                ),
            decreases parser.remaining().len(),
        {
            let ghost rem0 = parser.remaining();
            let line = match crate::lexer::Lexer::take_next(parser) {
                Err(e) => {
                    return Err(e);
                },
                Ok(None) => {
                    return Err(ParserError { kind: ParserErrorKind::UnexpectedEof });
                },
                Ok(Some(l)) => l,
            };
            if line.name.matches_iana(crate::keywords::lit_end().as_slice()) {
                if !eq_bytes(line.value.as_slice(), crate::keywords::lit_vcalendar().as_slice()) {
                    return Err(ParserError { kind: ParserErrorKind::MismatchedEnd });
                }
                return builder.build();
            } else if line.name.matches_iana(crate::keywords::lit_begin().as_slice()) {
                if eq_bytes(line.value.as_slice(), crate::keywords::lit_vevent().as_slice()) {
                    let ev = match Event::parse(parser) {
                        Ok(e) => e,
                        Err(e) => {
                            return Err(e);
                        },
                    };
                    let ghost prev = builder@;
                    let ghost evv = ev@;
                    builder.events.push(ev);
                    proof {
                        lemma_parse_event_len(rem0.skip(1), spec_event_builder_new());
                        assert(builder@ =~= (CalendarBuilderV {
                            events: prev.events.push(evv),
                            ..prev
                        }));
                    }
                } else {
                    match crate::lexer::Lexer::skip_current(parser) {
                        Ok(()) => {},
                        Err(e) => {
                            return Err(e);
                        },
                    }
                    proof {
                        lemma_skip_block_len(rem0.skip(1), 1);
                    }
                }
            } else {
                builder = match cal_step(builder, line) {
                    Ok(b2) => b2,
                    Err(e) => {
                        return Err(e);
                    },
                };
            }
        }
    }
}

/// The calendars of a document, one after another, until the input is
/// exhausted.
pub open spec fn spec_parse_stream(rem: Seq<Seq<u8>>, acc: Seq<CalendarV>) -> Result<
    Seq<CalendarV>,
    ParserError,
>
    decreases rem.len(),
    via spec_parse_stream_dec
{
    match crate::lexer::spec_take_next(rem) {
        Err(e) => Err(e),
        Ok(None) => Ok(acc),
        Ok(Some(_)) => match spec_parse_calendar(rem) {
            Err(e) => Err(e),
            Ok((c, rem2)) => spec_parse_stream(rem2, acc.push(c)),
        },
    }
}

#[via_fn]
proof fn spec_parse_stream_dec(rem: Seq<Seq<u8>>, acc: Seq<CalendarV>) {
    if rem.len() > 0 {
        lemma_cal_loop_len(rem.skip(1), spec_cal_builder_new());
    }
}

/// Nothing but spaces, tabs and line terminators.
pub open spec fn all_whitespace(s: Seq<u8>) -> bool {
    forall|i: int|
        0 <= i < s.len() ==> (#[trigger] s[i] == 32 || s[i] == 9 || s[i] == 13 || s[i] == 10)
}

/// What a whole document parses to: an entirely empty or whitespace input
/// is zero documents; anything else unfolds into logical lines whose
/// calendars follow one another.
pub open spec fn spec_parse(s: Seq<u8>) -> Result<Seq<CalendarV>, ParserError> {
    if all_whitespace(s) {
        Ok(Seq::<CalendarV>::empty())
    } else {
        spec_parse_stream(crate::unfold::spec_unfold(s), Seq::<CalendarV>::empty())
    }
}

/// Exec check of `all_whitespace`.
fn is_all_whitespace(input: &[u8]) -> (r: bool)
    ensures
        r == all_whitespace(input@),
{
    let n = input.len();
    let mut i: usize = 0;
    while i < n
        invariant
            n == input@.len(),
            0 <= i <= n,
            forall|j: int|
                0 <= j < i ==> (#[trigger] input@[j] == 32 || input@[j] == 9 || input@[j] == 13
                    || input@[j] == 10),
        decreases n - i,
    {
        let b = input[i];
        if !(b == 32 || b == 9 || b == 13 || b == 10) {
            return false;
        }
        i += 1;
    }
    true
}

/// Parse a document in the calendar format and return its list of
/// calendars. An empty or line-terminator-only document yields an empty
/// list; any error aborts the whole parse.
pub fn parse(input: &[u8]) -> (r: Result<Vec<Calendar>, ParserError>)
    ensures
        match spec_parse(input@) {
            Ok(l) => r matches Ok(v) && v@.map_values(|c: Calendar| c@) == l,
            Err(e) => r matches Err(x) && x == e,
        },
{
    if is_all_whitespace(input) {
        let r: Vec<Calendar> = Vec::new();
        proof {
            assert(r@.map_values(|c: Calendar| c@) =~= Seq::<CalendarV>::empty());
        }
        return Ok(r);
    }
    let mut parser = crate::lexer::Lexer::new(input);
    let mut calendars: Vec<Calendar> = Vec::new();
    proof {
        assert(calendars@.map_values(|c: Calendar| c@) =~= Seq::<CalendarV>::empty());
    }
    loop
        invariant
            parser.wf(),
            spec_parse(input@) == spec_parse_stream(
                parser.remaining(),
                calendars@.map_values(|c: Calendar| c@),
            ),
        decreases parser.remaining().len(),
    {
        let ghost rem0 = parser.remaining();
        let empty = match crate::lexer::Lexer::is_empty(&mut parser) {
            Ok(b) => b,
            Err(e) => {
                return Err(e);
            },
        };
        if empty {
            return Ok(calendars);
        }
        let cal = match Calendar::parse(&mut parser) {
            Ok(c) => c,
            Err(e) => {
                return Err(e);
            },
        };
        let ghost prev = calendars@.map_values(|c: Calendar| c@);
        let ghost cv = cal@;
        calendars.push(cal);
        proof {
            lemma_cal_loop_len(rem0.skip(1), spec_cal_builder_new());
            assert(calendars@.map_values(|c: Calendar| c@) =~= prev.push(cv));
        }
    }
}

} // verus!
