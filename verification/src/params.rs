//! The recognised parameters of properties, each with its value grammar.
//!
//! A parameter bound to a single value rejects a longer list; URI-valued
//! and language-valued parameters go through their validators.

use vstd::prelude::*;

use crate::errors::{ParserError, ParserErrorKind};
use crate::foreign::{
    language_tag_well_formed, uri_well_formed, CalendarUserAddress, Language, Uri,
};
use crate::helpers::{all_safe, check_param_text, eq_bytes, seq_lower, SLASH};
use crate::keywords::{
    kw_busy, kw_busy_tentative, kw_busy_unavailable, kw_free, kw_group, kw_individual,
    kw_resource, kw_room, kw_thisandfuture, kw_thisandprior, kw_unknown, lit_busy,
    lit_busy_tentative, lit_busy_unavailable, lit_free, lit_group, lit_individual, lit_resource,
    lit_room, lit_thisandfuture, lit_thisandprior, lit_unknown,
};
use crate::name::{spec_parse_name, Name, NameV};
use crate::vec_one::VecOne;

verus! {

/// The elements of a value list, as byte strings.
pub open spec fn list_view(l: VecOne<Vec<u8>>) -> Seq<Seq<u8>> {
    l.elems().map_values(|v: Vec<u8>| v@)
}

/// The single element of a one-element list, or a wrong-count error.
pub open spec fn spec_single(vs: Seq<Seq<u8>>) -> Result<Seq<u8>, ParserError> {
    if vs.len() == 1 {
        Ok(vs[0])
    } else {
        Err(ParserError { kind: ParserErrorKind::WrongElementCount })
    }
}

/// The single element of a value list.
pub fn take_single(input: VecOne<Vec<u8>>) -> (r: Result<Vec<u8>, ParserError>)
    ensures
        match spec_single(list_view(input)) {
            Ok(v) => r matches Ok(w) && w@ == v,
            Err(e) => r matches Err(x) && x == e,
        },
{
    proof {
        assert(list_view(input).len() == input.elems().len());
        if input.elems().len() == 1 {
            assert(list_view(input)[0] == input.elems()[0]@);
        }
    }
    input.get_single()
}

// ALTREP

/// `ALTREP=`: a single URI.
pub open spec fn spec_parse_altrep(vs: Seq<Seq<u8>>) -> Result<Seq<u8>, ParserError> {
    match spec_single(vs) {
        Err(e) => Err(e),
        Ok(t) => if uri_well_formed(t) {
            Ok(t)
        } else {
            Err(ParserError { kind: ParserErrorKind::BadUri })
        },
    }
}

/// An alternate text representation: a URI.
#[derive(Debug, Clone, PartialEq, Eq)]
pub struct AlternativeTextRepresentation(pub Uri);

impl AlternativeTextRepresentation {
    /// Parse the value list of `ALTREP=`.
    pub fn parse_value(input: VecOne<Vec<u8>>) -> (r: Result<Self, ParserError>)
        ensures
            match spec_parse_altrep(list_view(input)) {
                Ok(t) => r matches Ok(a) && a.0.text_spec() == t && a.0.wf(),
                Err(e) => r matches Err(x) && x == e,
            },
    {
        let v = match take_single(input) {
            Ok(v) => v,
            Err(e) => {
                return Err(e);
            },
        };
        match Uri::parse(v) {
            Ok(u) => Ok(AlternativeTextRepresentation(u)),
            Err(e) => Err(e),
        }
    }
}

// CN

/// A common name: a single value, kept as its text.
#[derive(Debug, Clone, PartialEq, Eq)]
pub struct CommonName(pub Vec<u8>);

impl CommonName {
    /// Parse the value list of `CN=`.
    pub fn parse_value(input: VecOne<Vec<u8>>) -> (r: Result<Self, ParserError>)
        ensures
            match spec_single(list_view(input)) {
                Ok(t) => r matches Ok(a) && a.0@ == t,
                Err(e) => r matches Err(x) && x == e,
            },
    {
        match take_single(input) {
            Ok(v) => Ok(CommonName(v)),
            Err(e) => Err(e),
        }
    }
}

// CUTYPE

/// The kind of calendar user.
#[derive(Debug, Clone, PartialEq, Eq)]
pub enum CalendarUserType {
    Individual,
    Group,
    Resource,
    Room,
    Unknown,
    Name(Name),
}

/// Spec-level form of a calendar user type.
#[verifier::ext_equal]
pub enum CalendarUserTypeV {
    Individual,
    Group,
    Resource,
    Room,
    Unknown,
    Name(NameV),
}

impl View for CalendarUserType {
    type V = CalendarUserTypeV;

    open spec fn view(&self) -> CalendarUserTypeV {
        match self {
            CalendarUserType::Individual => CalendarUserTypeV::Individual,
            CalendarUserType::Group => CalendarUserTypeV::Group,
            CalendarUserType::Resource => CalendarUserTypeV::Resource,
            CalendarUserType::Room => CalendarUserTypeV::Room,
            CalendarUserType::Unknown => CalendarUserTypeV::Unknown,
            CalendarUserType::Name(n) => CalendarUserTypeV::Name(n@),
        }
    }
}

/// `CUTYPE=`: one of the known kinds, or any valid name.
pub open spec fn spec_parse_cutype(vs: Seq<Seq<u8>>) -> Result<CalendarUserTypeV, ParserError> {
    match spec_single(vs) {
        Err(e) => Err(e),
        Ok(t) => {
            if t == kw_individual() {
                Ok(CalendarUserTypeV::Individual)
            } else if t == kw_group() {
                Ok(CalendarUserTypeV::Group)
            } else if t == kw_resource() {
                Ok(CalendarUserTypeV::Resource)
            } else if t == kw_room() {
                Ok(CalendarUserTypeV::Room)
            } else if t == kw_unknown() {
                Ok(CalendarUserTypeV::Unknown)
            } else {
                match spec_parse_name(t) {
                    Ok(n) => Ok(CalendarUserTypeV::Name(n)),
                    Err(e) => Err(e),
                }
            }
        },
    }
}

impl CalendarUserType {
    /// Parse the value list of `CUTYPE=`.
    pub fn parse_value(input: VecOne<Vec<u8>>) -> (r: Result<Self, ParserError>)
        ensures
            match spec_parse_cutype(list_view(input)) {
                Ok(v) => r matches Ok(a) && a@ == v,
                Err(e) => r matches Err(x) && x == e,
            },
    {
        let v = match take_single(input) {
            Ok(v) => v,
            Err(e) => {
                return Err(e);
            },
        };
        let s = v.as_slice();
        if eq_bytes(s, lit_individual().as_slice()) {
            Ok(CalendarUserType::Individual)
        } else if eq_bytes(s, lit_group().as_slice()) {
            Ok(CalendarUserType::Group)
        } else if eq_bytes(s, lit_resource().as_slice()) {
            Ok(CalendarUserType::Resource)
        } else if eq_bytes(s, lit_room().as_slice()) {
            Ok(CalendarUserType::Room)
        } else if eq_bytes(s, lit_unknown().as_slice()) {
            Ok(CalendarUserType::Unknown)
        } else {
            match Name::parse(s) {
                Ok(n) => Ok(CalendarUserType::Name(n)),
                Err(e) => Err(e),
            }
        }
    }
}

// DELEGATED-FROM / DELEGATED-TO / MEMBER: lists of calendar user addresses

/// Every element is a well-formed URI.
pub open spec fn all_uris(vs: Seq<Seq<u8>>) -> bool {
    forall|i: int| 0 <= i < vs.len() ==> uri_well_formed(#[trigger] vs[i])
}

/// Parse every element of a value list as a calendar user address. Fails
/// with a bad-URI error exactly when some element is not a URI.
pub fn parse_address_list(input: VecOne<Vec<u8>>) -> (r: Result<
    VecOne<CalendarUserAddress>,
    ParserError,
>)
    ensures
        all_uris(list_view(input)) ==> (r matches Ok(l) && l.elems().len() == list_view(
            input,
        ).len() && (forall|i: int|
            0 <= i < l.elems().len() ==> (#[trigger] l.elems()[i]).0.text_spec() == list_view(
                input,
            )[i] && l.elems()[i].wf())),
        !all_uris(list_view(input)) ==> r == Err::<VecOne<CalendarUserAddress>, ParserError>(
            ParserError { kind: ParserErrorKind::BadUri },
        ),
{
    let ghost vs = list_view(input);
    let VecOne { first, rest } = input;
    let ghost firstv = first@;
    let a0 = match CalendarUserAddress::parse(first) {
        Ok(a) => a,
        Err(e) => {
            proof {
                assert(vs[0] == firstv);
                assert(!all_uris(vs));
            }
            return Err(e);
        },
    };
    let mut out = VecOne::new(a0);
    let ghost n = rest@.len();
    let mut queue = rest;
    let ghost mut i: int = 0;
    proof {
        assert(vs.len() == n + 1);
        assert forall|j: int| 0 <= j < queue@.len() implies vs[j + 1] == (
        #[trigger] queue@[j])@ by {}
        assert(out.elems()[0].0.text_spec() == vs[0]);
    }
    while queue.len() > 0
        invariant
            0 <= i <= n,
            queue@.len() == n - i,
            vs == list_view(input),
            vs.len() == n + 1,
            vs[0] == firstv,
            uri_well_formed(firstv),
            forall|j: int| 0 <= j < queue@.len() ==> vs[i + j + 1] == (#[trigger] queue@[j])@,
            forall|j: int| 0 <= j <= i ==> uri_well_formed(#[trigger] vs[j]),
            out.elems().len() == i + 1,
            forall|j: int|
                0 <= j <= i ==> (#[trigger] out.elems()[j]).0.text_spec() == vs[j]
                    && out.elems()[j].wf(),
        decreases queue@.len(),
    {
        let v = queue.remove(0);
        let ghost ev = v@;
        proof {
            assert(vs[i + 1] == ev);
        }
        let a = match CalendarUserAddress::parse(v) {
            Ok(a) => a,
            Err(e) => {
                proof {
                    assert(!all_uris(vs));
                }
                return Err(e);
            },
        };
        out.push(a);
        proof {
            i = i + 1;
        }
    }
    proof {
        assert forall|k: int| 0 <= k < vs.len() implies uri_well_formed(#[trigger] vs[k]) by {}
        assert(all_uris(vs));
    }
    Ok(out)
}

/// Delegators (`DELEGATED-FROM=`): calendar user addresses.
#[derive(Debug, Clone, PartialEq, Eq)]
pub struct Delegators(pub VecOne<CalendarUserAddress>);

impl Delegators {
    /// Parse the value list of `DELEGATED-FROM=`.
    pub fn parse_value(input: VecOne<Vec<u8>>) -> (r: Result<Self, ParserError>)
        ensures
            all_uris(list_view(input)) ==> (r matches Ok(d) && d.0.elems().len() == list_view(
                input,
            ).len() && (forall|i: int|
                0 <= i < d.0.elems().len() ==> (#[trigger] d.0.elems()[i]).0.text_spec()
                    == list_view(input)[i] && d.0.elems()[i].wf())),
            !all_uris(list_view(input)) ==> r == Err::<Delegators, ParserError>(
                ParserError { kind: ParserErrorKind::BadUri },
            ),
    {
        match parse_address_list(input) {
            Ok(l) => Ok(Delegators(l)),
            Err(e) => Err(e),
        }
    }
}

/// Delegatees (`DELEGATED-TO=`): calendar user addresses.
#[derive(Debug, Clone, PartialEq, Eq)]
pub struct Delegatees(pub VecOne<CalendarUserAddress>);

impl Delegatees {
    /// Parse the value list of `DELEGATED-TO=`.
    pub fn parse_value(input: VecOne<Vec<u8>>) -> (r: Result<Self, ParserError>)
        ensures
            all_uris(list_view(input)) ==> (r matches Ok(d) && d.0.elems().len() == list_view(
                input,
            ).len() && (forall|i: int|
                0 <= i < d.0.elems().len() ==> (#[trigger] d.0.elems()[i]).0.text_spec()
                    == list_view(input)[i] && d.0.elems()[i].wf())),
            !all_uris(list_view(input)) ==> r == Err::<Delegatees, ParserError>(
                ParserError { kind: ParserErrorKind::BadUri },
            ),
    {
        match parse_address_list(input) {
            Ok(l) => Ok(Delegatees(l)),
            Err(e) => Err(e),
        }
    }
}

/// Group or list membership (`MEMBER=`): calendar user addresses.
#[derive(Debug, Clone, PartialEq, Eq)]
pub struct GroupOrListMember(pub VecOne<CalendarUserAddress>);

impl GroupOrListMember {
    /// Parse the value list of `MEMBER=`.
    pub fn parse_value(input: VecOne<Vec<u8>>) -> (r: Result<Self, ParserError>)
        ensures
            all_uris(list_view(input)) ==> (r matches Ok(d) && d.0.elems().len() == list_view(
                input,
            ).len() && (forall|i: int|
                0 <= i < d.0.elems().len() ==> (#[trigger] d.0.elems()[i]).0.text_spec()
                    == list_view(input)[i] && d.0.elems()[i].wf())),
            !all_uris(list_view(input)) ==> r == Err::<GroupOrListMember, ParserError>(
                ParserError { kind: ParserErrorKind::BadUri },
            ),
    {
        match parse_address_list(input) {
            Ok(l) => Ok(GroupOrListMember(l)),
            Err(e) => Err(e),
        }
    }
}

// DIR

/// `DIR=`: a single URI to a directory entry.
#[derive(Debug, Clone, PartialEq, Eq)]
pub struct DirectoryEntryReference(pub Uri);

impl DirectoryEntryReference {
    /// Parse the value list of `DIR=`.
    pub fn parse_value(input: VecOne<Vec<u8>>) -> (r: Result<Self, ParserError>)
        ensures
            match spec_parse_altrep(list_view(input)) {
                Ok(t) => r matches Ok(a) && a.0.text_spec() == t && a.0.wf(),
                Err(e) => r matches Err(x) && x == e,
            },
    {
        let v = match take_single(input) {
            Ok(v) => v,
            Err(e) => {
                return Err(e);
            },
        };
        match Uri::parse(v) {
            Ok(u) => Ok(DirectoryEntryReference(u)),
            Err(e) => Err(e),
        }
    }
}

// SENT-BY

/// `SENT-BY=`: a single calendar user address.
#[derive(Debug, Clone, PartialEq, Eq)]
pub struct SentBy(pub CalendarUserAddress);

impl SentBy {
    /// Parse the value list of `SENT-BY=`.
    pub fn parse_value(input: VecOne<Vec<u8>>) -> (r: Result<Self, ParserError>)
        ensures
            match spec_parse_altrep(list_view(input)) {
                Ok(t) => r matches Ok(a) && a.0.0.text_spec() == t && a.0.wf(),
                Err(e) => r matches Err(x) && x == e,
            },
    {
        let v = match take_single(input) {
            Ok(v) => v,
            Err(e) => {
                return Err(e);
            },
        };
        match CalendarUserAddress::parse(v) {
            Ok(u) => Ok(SentBy(u)),
            Err(e) => Err(e),
        }
    }
}

// LANGUAGE

/// `LANGUAGE=`: a single language tag.
pub open spec fn spec_parse_language(vs: Seq<Seq<u8>>) -> Result<Seq<u8>, ParserError> {
    match spec_single(vs) {
        Err(e) => Err(e),
        Ok(t) => if language_tag_well_formed(t) {
            Ok(t)
        } else {
            Err(ParserError { kind: ParserErrorKind::BadLanguageTag })
        },
    }
}

impl Language {
    /// Parse the value list of `LANGUAGE=`.
    pub fn parse_value(input: VecOne<Vec<u8>>) -> (r: Result<Language, ParserError>)
        ensures
            match spec_parse_language(list_view(input)) {
                Ok(t) => r matches Ok(l) && l.text_spec() == t && l.wf(),
                Err(e) => r matches Err(x) && x == e,
            },
    {
        let v = match take_single(input) {
            Ok(v) => v,
            Err(e) => {
                return Err(e);
            },
        };
        Language::parse(v)
    }
}

// PARTSTAT

/// Participation status: one of the known tokens, or any valid name.
#[derive(Debug, Clone, PartialEq, Eq)]
pub enum ParticipationStatus {
    NeedsAction,
    Accepted,
    Declined,
    Tentative,
    Delegated,
    Completed,
    InProcess,
    Name(Name),
}

/// Spec-level form of a participation status.
#[verifier::ext_equal]
pub enum ParticipationStatusV {
    NeedsAction,
    Accepted,
    Declined,
    Tentative,
    Delegated,
    Completed,
    InProcess,
    Name(NameV),
}

impl View for ParticipationStatus {
    type V = ParticipationStatusV;

    open spec fn view(&self) -> ParticipationStatusV {
        match self {
            ParticipationStatus::NeedsAction => ParticipationStatusV::NeedsAction,
            ParticipationStatus::Accepted => ParticipationStatusV::Accepted,
            ParticipationStatus::Declined => ParticipationStatusV::Declined,
            ParticipationStatus::Tentative => ParticipationStatusV::Tentative,
            ParticipationStatus::Delegated => ParticipationStatusV::Delegated,
            ParticipationStatus::Completed => ParticipationStatusV::Completed,
            ParticipationStatus::InProcess => ParticipationStatusV::InProcess,
            ParticipationStatus::Name(n) => ParticipationStatusV::Name(n@),
        }
    }
}

/// `PARTSTAT=`: one of the known tokens, or any valid name.
pub open spec fn spec_parse_partstat(vs: Seq<Seq<u8>>) -> Result<
    ParticipationStatusV,
    ParserError,
> {
    match spec_single(vs) {
        Err(e) => Err(e),
        Ok(t) => {
            if t == crate::keywords::kw_needs_action() {
                Ok(ParticipationStatusV::NeedsAction)
            } else if t == crate::keywords::kw_accepted() {
                Ok(ParticipationStatusV::Accepted)
            } else if t == crate::keywords::kw_declined() {
                Ok(ParticipationStatusV::Declined)
            } else if t == crate::keywords::kw_tentative() {
                Ok(ParticipationStatusV::Tentative)
            } else if t == crate::keywords::kw_delegated() {
                Ok(ParticipationStatusV::Delegated)
            } else if t == crate::keywords::kw_completed() {
                Ok(ParticipationStatusV::Completed)
            } else if t == crate::keywords::kw_in_process() {
                Ok(ParticipationStatusV::InProcess)
            } else {
                match spec_parse_name(t) {
                    Ok(n) => Ok(ParticipationStatusV::Name(n)),
                    Err(e) => Err(e),
                }
            }
        },
    }
}

impl ParticipationStatus {
    /// Parse the value list of `PARTSTAT=`.
    pub fn parse_value(input: VecOne<Vec<u8>>) -> (r: Result<Self, ParserError>)
        ensures
            match spec_parse_partstat(list_view(input)) {
                Ok(v) => r matches Ok(a) && a@ == v,
                Err(e) => r matches Err(x) && x == e,
            },
    {
        let v = match take_single(input) {
            Ok(v) => v,
            Err(e) => {
                return Err(e);
            },
        };
        let s = v.as_slice();
        if eq_bytes(s, crate::keywords::lit_needs_action().as_slice()) {
            Ok(ParticipationStatus::NeedsAction)
        } else if eq_bytes(s, crate::keywords::lit_accepted().as_slice()) {
            Ok(ParticipationStatus::Accepted)
        } else if eq_bytes(s, crate::keywords::lit_declined().as_slice()) {
            Ok(ParticipationStatus::Declined)
        } else if eq_bytes(s, crate::keywords::lit_tentative().as_slice()) {
            Ok(ParticipationStatus::Tentative)
        } else if eq_bytes(s, crate::keywords::lit_delegated().as_slice()) {
            Ok(ParticipationStatus::Delegated)
        } else if eq_bytes(s, crate::keywords::lit_completed().as_slice()) {
            Ok(ParticipationStatus::Completed)
        } else if eq_bytes(s, crate::keywords::lit_in_process().as_slice()) {
            Ok(ParticipationStatus::InProcess)
        } else {
            match Name::parse(s) {
                Ok(n) => Ok(ParticipationStatus::Name(n)),
                Err(e) => Err(e),
            }
        }
    }
}

// ROLE

/// Participation role for the calendar user.
#[derive(Debug, Clone, PartialEq, Eq)]
pub enum ParticipationRole {
    /// The chair of the calendar entry.
    Chair,
    /// A participant whose participation is required.
    ReqParticipant,
    /// A participant whose participation is optional.
    OptParticipant,
    /// A participant who is copied for information.
    NonParticipant,
    /// Another registered or experimental role.
    Name(Name),
}

/// Spec-level form of a participation role.
#[verifier::ext_equal]
pub enum ParticipationRoleV {
    Chair,
    ReqParticipant,
    OptParticipant,
    NonParticipant,
    Name(NameV),
}

impl View for ParticipationRole {
    type V = ParticipationRoleV;

    open spec fn view(&self) -> ParticipationRoleV {
        match self {
            ParticipationRole::Chair => ParticipationRoleV::Chair,
            ParticipationRole::ReqParticipant => ParticipationRoleV::ReqParticipant,
            ParticipationRole::OptParticipant => ParticipationRoleV::OptParticipant,
            ParticipationRole::NonParticipant => ParticipationRoleV::NonParticipant,
            ParticipationRole::Name(n) => ParticipationRoleV::Name(n@),
        }
    }
}

/// `ROLE=`: one of the known tokens, or any valid name.
pub open spec fn spec_parse_role(vs: Seq<Seq<u8>>) -> Result<ParticipationRoleV, ParserError> {
    match spec_single(vs) {
        Err(e) => Err(e),
        Ok(t) => {
            if t == crate::keywords::kw_chair() {
                Ok(ParticipationRoleV::Chair)
            } else if t == crate::keywords::kw_req_participant() {
                Ok(ParticipationRoleV::ReqParticipant)
            } else if t == crate::keywords::kw_opt_participant() {
                Ok(ParticipationRoleV::OptParticipant)
            } else if t == crate::keywords::kw_non_participant() {
                Ok(ParticipationRoleV::NonParticipant)
            } else {
                match spec_parse_name(t) {
                    Ok(n) => Ok(ParticipationRoleV::Name(n)),
                    Err(e) => Err(e),
                }
            }
        },
    }
}

impl ParticipationRole {
    /// Parse the value list of `ROLE=`.
    pub fn parse_value(input: VecOne<Vec<u8>>) -> (r: Result<Self, ParserError>)
        ensures
            match spec_parse_role(list_view(input)) {
                Ok(v) => r matches Ok(a) && a@ == v,
                Err(e) => r matches Err(x) && x == e,
            },
    {
        let v = match take_single(input) {
            Ok(v) => v,
            Err(e) => {
                return Err(e);
            },
        };
        let s = v.as_slice();
        if eq_bytes(s, crate::keywords::lit_chair().as_slice()) {
            Ok(ParticipationRole::Chair)
        } else if eq_bytes(s, crate::keywords::lit_req_participant().as_slice()) {
            Ok(ParticipationRole::ReqParticipant)
        } else if eq_bytes(s, crate::keywords::lit_opt_participant().as_slice()) {
            Ok(ParticipationRole::OptParticipant)
        } else if eq_bytes(s, crate::keywords::lit_non_participant().as_slice()) {
            Ok(ParticipationRole::NonParticipant)
        } else {
            match Name::parse(s) {
                Ok(n) => Ok(ParticipationRole::Name(n)),
                Err(e) => Err(e),
            }
        }
    }
}

// RSVP

/// Whether a reply is expected.
#[derive(Debug, Clone, Copy, PartialEq, Eq, Structural)]
pub enum RsvpExpectation {
    True,
    False,
}

/// `RSVP=`: `TRUE` or `FALSE`.
pub open spec fn spec_parse_rsvp(vs: Seq<Seq<u8>>) -> Result<RsvpExpectation, ParserError> {
    match spec_single(vs) {
        Err(e) => Err(e),
        Ok(t) => {
            if t == crate::keywords::kw_true() {
                Ok(RsvpExpectation::True)
            } else if t == crate::keywords::kw_false() {
                Ok(RsvpExpectation::False)
            } else {
                Err(ParserError { kind: ParserErrorKind::UnknownToken })
            }
        },
    }
}

impl RsvpExpectation {
    /// Parse the value list of `RSVP=`.
    pub fn parse_value(input: VecOne<Vec<u8>>) -> (r: Result<Self, ParserError>)
        ensures
            r == spec_parse_rsvp(list_view(input)),
    {
        let v = match take_single(input) {
            Ok(v) => v,
            Err(e) => {
                return Err(e);
            },
        };
        let s = v.as_slice();
        if eq_bytes(s, crate::keywords::lit_true().as_slice()) {
            Ok(RsvpExpectation::True)
        } else if eq_bytes(s, crate::keywords::lit_false().as_slice()) {
            Ok(RsvpExpectation::False)
        } else {
            Err(ParserError { kind: ParserErrorKind::UnknownToken })
        }
    }

    /// The token this value renders as.
    pub fn as_str(&self) -> (r: Vec<u8>)
        ensures
            (self is True ==> r@ == crate::keywords::kw_true()),
            (self is False ==> r@ == crate::keywords::kw_false()),
    {
        match self {
            RsvpExpectation::True => {
                let a = crate::keywords::lit_true();
                crate::helpers::copy_range(a.as_slice(), 0, 4)
            },
            RsvpExpectation::False => {
                let a = crate::keywords::lit_false();
                crate::helpers::copy_range(a.as_slice(), 0, 5)
            },
        }
    }
}

// RANGE

/// The range of a recurrence identifier.
#[derive(Debug, Clone, Copy, PartialEq, Eq, Structural)]
pub enum Range {
    ThisAndPrior,
    ThisAndFuture,
}

/// `RANGE=`: `THISANDPRIOR` or `THISANDFUTURE`.
pub open spec fn spec_parse_range(vs: Seq<Seq<u8>>) -> Result<Range, ParserError> {
    match spec_single(vs) {
        Err(e) => Err(e),
        Ok(t) => {
            if t == kw_thisandprior() {
                Ok(Range::ThisAndPrior)
            } else if t == kw_thisandfuture() {
                Ok(Range::ThisAndFuture)
            } else {
                Err(ParserError { kind: ParserErrorKind::UnknownToken })
            }
        },
    }
}

impl Range {
    /// Parse the value list of `RANGE=`.
    pub fn parse_value(input: VecOne<Vec<u8>>) -> (r: Result<Self, ParserError>)
        ensures
            r == spec_parse_range(list_view(input)),
    {
        let v = match take_single(input) {
            Ok(v) => v,
            Err(e) => {
                return Err(e);
            },
        };
        let s = v.as_slice();
        if eq_bytes(s, lit_thisandprior().as_slice()) {
            Ok(Range::ThisAndPrior)
        } else if eq_bytes(s, lit_thisandfuture().as_slice()) {
            Ok(Range::ThisAndFuture)
        } else {
            Err(ParserError { kind: ParserErrorKind::UnknownToken })
        }
    }
}

// TZID

/// A time zone identifier: validated syntactically, not resolved against a
/// time zone database. A leading `/` marks a globally unique id.
#[derive(Debug, Clone, PartialEq, Eq)]
pub struct TimeZoneIdentifier {
    pub prefix: bool,
    pub value: Vec<u8>,
}

/// Spec-level form of a time zone identifier.
#[verifier::ext_equal]
pub struct TimeZoneIdentifierV {
    pub prefix: bool,
    pub value: Seq<u8>,
}

impl View for TimeZoneIdentifier {
    type V = TimeZoneIdentifierV;

    open spec fn view(&self) -> TimeZoneIdentifierV {
        TimeZoneIdentifierV { prefix: self.prefix, value: self.value@ }
    }
}

/// `TZID=`: a single value; a leading `/` is the global marker, and the
/// rest must be parameter-safe text.
pub open spec fn spec_parse_tzid(vs: Seq<Seq<u8>>) -> Result<TimeZoneIdentifierV, ParserError> {
    match spec_single(vs) {
        Err(e) => Err(e),
        Ok(t) => {
            if t.len() > 0 && t[0] == SLASH {
                if all_safe(t.skip(1)) {
                    Ok(TimeZoneIdentifierV { prefix: true, value: t.skip(1) })
                } else {
                    Err(ParserError { kind: ParserErrorKind::InvalidParamValue })
                }
            } else {
                if all_safe(t) {
                    Ok(TimeZoneIdentifierV { prefix: false, value: t })
                } else {
                    Err(ParserError { kind: ParserErrorKind::InvalidParamValue })
                }
            }
        },
    }
}

impl TimeZoneIdentifier {
    /// Parse the value list of `TZID=`.
    pub fn parse_value(input: VecOne<Vec<u8>>) -> (r: Result<Self, ParserError>)
        ensures
            match spec_parse_tzid(list_view(input)) {
                Ok(v) => r matches Ok(a) && a@ == v,
                Err(e) => r matches Err(x) && x == e,
            },
    {
        let v = match take_single(input) {
            Ok(v) => v,
            Err(e) => {
                return Err(e);
            },
        };
        if v.len() > 0 && v.as_slice()[0] == SLASH {
            let rest = crate::helpers::copy_range(v.as_slice(), 1, v.len());
            match check_param_text(rest.as_slice()) {
                Ok(()) => Ok(TimeZoneIdentifier { prefix: true, value: rest }),
                Err(e) => Err(e),
            }
        } else {
            match check_param_text(v.as_slice()) {
                Ok(()) => Ok(TimeZoneIdentifier { prefix: false, value: v }),
                Err(e) => Err(e),
            }
        }
    }

    /// The identifier with its global marker put back.
    pub fn fmt_value(&self) -> (r: Vec<u8>)
        ensures
            self.prefix ==> r@ == seq![SLASH] + self.value@,
            !self.prefix ==> r@ == self.value@,
    {
        let mut out: Vec<u8> = Vec::new();
        if self.prefix {
            out.push(SLASH);
        }
        out.extend_from_slice(self.value.as_slice());
        proof {
            if self.prefix {
                assert(out@ =~= seq![SLASH] + self.value@);
            } else {
                assert(out@ =~= self.value@);
            }
        }
        out
    }
}

// FMTTYPE

/// `FMTTYPE=`: a media type, validated as a name.
#[derive(Debug, Clone, PartialEq, Eq)]
pub struct FormatType(pub Name);

/// `FMTTYPE=`: a single value in the name charset.
pub open spec fn spec_parse_fmttype(vs: Seq<Seq<u8>>) -> Result<NameV, ParserError> {
    match spec_single(vs) {
        Err(e) => Err(e),
        Ok(t) => spec_parse_name(t),
    }
}

impl FormatType {
    /// Parse the value list of `FMTTYPE=`.
    pub fn parse_value(input: VecOne<Vec<u8>>) -> (r: Result<Self, ParserError>)
        ensures
            match spec_parse_fmttype(list_view(input)) {
                Ok(v) => r matches Ok(a) && a.0@ == v,
                Err(e) => r matches Err(x) && x == e,
            },
    {
        let v = match take_single(input) {
            Ok(v) => v,
            Err(e) => {
                return Err(e);
            },
        };
        match Name::parse(v.as_slice()) {
            Ok(n) => Ok(FormatType(n)),
            Err(e) => Err(e),
        }
    }
}

// ENCODING

/// The inline encoding of a value.
#[derive(Debug, Clone, Copy, PartialEq, Eq, Structural)]
pub enum Encoding {
    Bit8,
    Base64,
}

impl Encoding {
    /// Parse the (single) value of `ENCODING=`: `8BIT` or `BASE64`.
    pub fn parse_value(first: &[u8], rest: &Vec<Vec<u8>>) -> (r: Result<Encoding, ParserError>)
        ensures
            rest@.len() > 0 ==> r == Err::<Encoding, ParserError>(
                ParserError { kind: ParserErrorKind::WrongElementCount },
            ),
            rest@.len() == 0 ==> r == (if first@ == crate::keywords::kw_bit8() {
                Ok::<Encoding, ParserError>(Encoding::Bit8)
            } else if first@ == crate::keywords::kw_base64() {
                Ok::<Encoding, ParserError>(Encoding::Base64)
            } else {
                Err::<Encoding, ParserError>(ParserError { kind: ParserErrorKind::UnknownToken })
            }),
    {
        if rest.len() > 0 {
            return Err(ParserError { kind: ParserErrorKind::WrongElementCount });
        }
        if eq_bytes(first, crate::keywords::lit_bit8().as_slice()) {
            Ok(Encoding::Bit8)
        } else if eq_bytes(first, crate::keywords::lit_base64().as_slice()) {
            Ok(Encoding::Base64)
        } else {
            Err(ParserError { kind: ParserErrorKind::UnknownToken })
        }
    }

    /// The token this value renders as.
    pub fn as_str(&self) -> (r: Vec<u8>)
        ensures
            (self is Bit8 ==> r@ == crate::keywords::kw_bit8()),
            (self is Base64 ==> r@ == crate::keywords::kw_base64()),
    {
        match self {
            Encoding::Bit8 => {
                let a = crate::keywords::lit_bit8();
                crate::helpers::copy_range(a.as_slice(), 0, 4)
            },
            Encoding::Base64 => {
                let a = crate::keywords::lit_base64();
                crate::helpers::copy_range(a.as_slice(), 0, 6)
            },
        }
    }
}

// FBTYPE

/// A free/busy time classification.
#[derive(Debug, Clone, PartialEq, Eq)]
pub enum FreeBusyTimeType {
    Free,
    Busy,
    BusyUnavailable,
    BusyTentative,
    Name(Name),
}

impl FreeBusyTimeType {
    /// Parse the (single) value of `FBTYPE=`.
    pub fn parse_value(first: &[u8], rest: &Vec<Vec<u8>>) -> (r: Result<
        FreeBusyTimeType,
        ParserError,
    >)
        ensures
            rest@.len() > 0 ==> r == Err::<FreeBusyTimeType, ParserError>(
                ParserError { kind: ParserErrorKind::WrongElementCount },
            ),
            rest@.len() == 0 ==> (if first@ == kw_free() {
                r matches Ok(v) && v == FreeBusyTimeType::Free
            } else if first@ == kw_busy() {
                r matches Ok(v) && v == FreeBusyTimeType::Busy
            } else if first@ == kw_busy_unavailable() {
                r matches Ok(v) && v == FreeBusyTimeType::BusyUnavailable
            } else if first@ == kw_busy_tentative() {
                r matches Ok(v) && v == FreeBusyTimeType::BusyTentative
            } else {
                match spec_parse_name(first@) {
                    Ok(n) => r matches Ok(v) && v matches FreeBusyTimeType::Name(m) && m@ == n,
                    Err(e) => r matches Err(x) && x == e,
                }
            }),
    {
        if rest.len() > 0 {
            return Err(ParserError { kind: ParserErrorKind::WrongElementCount });
        }
        if eq_bytes(first, lit_free().as_slice()) {
            Ok(FreeBusyTimeType::Free)
        } else if eq_bytes(first, lit_busy().as_slice()) {
            Ok(FreeBusyTimeType::Busy)
        } else if eq_bytes(first, lit_busy_unavailable().as_slice()) {
            Ok(FreeBusyTimeType::BusyUnavailable)
        } else if eq_bytes(first, lit_busy_tentative().as_slice()) {
            Ok(FreeBusyTimeType::BusyTentative)
        } else {
            match Name::parse(first) {
                Ok(n) => Ok(FreeBusyTimeType::Name(n)),
                Err(e) => Err(e),
            }
        }
    }
}

// RELATED

/// Whether an alarm trigger is relative to the start or the end.
#[derive(Debug, Clone, Copy, PartialEq, Eq, Structural)]
pub enum AlarmTriggerRelationship {
    Start,
    End,
}

impl AlarmTriggerRelationship {
    /// Parse the (single) value of `RELATED=`: `START` or `END`.
    pub fn parse_value(first: &[u8], rest: &Vec<Vec<u8>>) -> (r: Result<
        AlarmTriggerRelationship,
        ParserError,
    >)
        ensures
            rest@.len() > 0 ==> r == Err::<AlarmTriggerRelationship, ParserError>(
                ParserError { kind: ParserErrorKind::WrongElementCount },
            ),
            rest@.len() == 0 ==> r == (if first@ == crate::keywords::kw_start() {
                Ok::<AlarmTriggerRelationship, ParserError>(AlarmTriggerRelationship::Start)
            } else if first@ == crate::keywords::kw_end() {
                Ok::<AlarmTriggerRelationship, ParserError>(AlarmTriggerRelationship::End)
            } else {
                Err::<AlarmTriggerRelationship, ParserError>(
                    ParserError { kind: ParserErrorKind::UnknownToken },
                )
            }),
    {
        if rest.len() > 0 {
            return Err(ParserError { kind: ParserErrorKind::WrongElementCount });
        }
        if eq_bytes(first, crate::keywords::lit_start().as_slice()) {
            Ok(AlarmTriggerRelationship::Start)
        } else if eq_bytes(first, crate::keywords::lit_end().as_slice()) {
            Ok(AlarmTriggerRelationship::End)
        } else {
            Err(ParserError { kind: ParserErrorKind::UnknownToken })
        }
    }

    /// The token this value renders as.
    pub fn as_str(&self) -> (r: Vec<u8>)
        ensures
            (self is Start ==> r@ == crate::keywords::kw_start()),
            (self is End ==> r@ == crate::keywords::kw_end()),
    {
        match self {
            AlarmTriggerRelationship::Start => {
                let a = crate::keywords::lit_start();
                crate::helpers::copy_range(a.as_slice(), 0, 5)
            },
            AlarmTriggerRelationship::End => {
                let a = crate::keywords::lit_end();
                crate::helpers::copy_range(a.as_slice(), 0, 3)
            },
        }
    }
}

// RELTYPE

/// The hierarchical relationship of a related component.
#[derive(Debug, Clone, PartialEq, Eq)]
pub enum RelationshipType {
    Parent,
    Child,
    Sibling,
    Name(Name),
}

impl RelationshipType {
    /// Parse the (single) value of `RELTYPE=`.
    pub fn parse_value(first: &[u8], rest: &Vec<Vec<u8>>) -> (r: Result<
        RelationshipType,
        ParserError,
    >)
        ensures
            rest@.len() > 0 ==> r == Err::<RelationshipType, ParserError>(
                ParserError { kind: ParserErrorKind::WrongElementCount },
            ),
            rest@.len() == 0 ==> (if first@ == crate::keywords::kw_parent() {
                r matches Ok(v) && v == RelationshipType::Parent
            } else if first@ == crate::keywords::kw_child() {
                r matches Ok(v) && v == RelationshipType::Child
            } else if first@ == crate::keywords::kw_sibling() {
                r matches Ok(v) && v == RelationshipType::Sibling
            } else {
                match spec_parse_name(first@) {
                    Ok(n) => r matches Ok(v) && v matches RelationshipType::Name(m) && m@ == n,
                    Err(e) => r matches Err(x) && x == e,
                }
            }),
    {
        if rest.len() > 0 {
            return Err(ParserError { kind: ParserErrorKind::WrongElementCount });
        }
        if eq_bytes(first, crate::keywords::lit_parent().as_slice()) {
            Ok(RelationshipType::Parent)
        } else if eq_bytes(first, crate::keywords::lit_child().as_slice()) {
            Ok(RelationshipType::Child)
        } else if eq_bytes(first, crate::keywords::lit_sibling().as_slice()) {
            Ok(RelationshipType::Sibling)
        } else {
            match Name::parse(first) {
                Ok(n) => Ok(RelationshipType::Name(n)),
                Err(e) => Err(e),
            }
        }
    }
}

// VALUE

/// The declared type of a property value.
#[derive(Debug, Clone, PartialEq, Eq)]
pub enum Value {
    Binary,
    Boolean,
    CalAddress,
    Date,
    DateTime,
    Duration,
    Float,
    Integer,
    Period,
    Recur,
    Text,
    Time,
    Uri,
    UtcOffset,
    Name(Name),
}

impl Value {
    /// Parse the (single) value of `VALUE=`: a known type token, or any
    /// valid name.
    pub fn parse_value(first: &[u8], rest: &Vec<Vec<u8>>) -> (r: Result<Value, ParserError>)
        ensures
            rest@.len() > 0 ==> r == Err::<Value, ParserError>(
                ParserError { kind: ParserErrorKind::WrongElementCount },
            ),
            rest@.len() == 0 ==> (if first@ == crate::keywords::kw_binary() {
                r matches Ok(v) && v == Value::Binary
            } else if first@ == crate::keywords::kw_boolean() {
                r matches Ok(v) && v == Value::Boolean
            } else if first@ == crate::keywords::kw_cal_address() {
                r matches Ok(v) && v == Value::CalAddress
            } else if first@ == crate::keywords::kw_date() {
                r matches Ok(v) && v == Value::Date
            } else if first@ == crate::keywords::kw_date_time() {
                r matches Ok(v) && v == Value::DateTime
            } else if first@ == crate::keywords::kw_duration() {
                r matches Ok(v) && v == Value::Duration
            } else if first@ == crate::keywords::kw_float() {
                r matches Ok(v) && v == Value::Float
            } else if first@ == crate::keywords::kw_integer() {
                r matches Ok(v) && v == Value::Integer
            } else if first@ == crate::keywords::kw_period() {
                r matches Ok(v) && v == Value::Period
            } else if first@ == crate::keywords::kw_recur() {
                r matches Ok(v) && v == Value::Recur
            } else if first@ == crate::keywords::kw_text() {
                r matches Ok(v) && v == Value::Text
            } else if first@ == crate::keywords::kw_time() {
                r matches Ok(v) && v == Value::Time
            } else if first@ == crate::keywords::kw_uri() {
                r matches Ok(v) && v == Value::Uri
            } else if first@ == crate::keywords::kw_utc_offset() {
                r matches Ok(v) && v == Value::UtcOffset
            } else {
                match spec_parse_name(first@) {
                    Ok(n) => r matches Ok(v) && v matches Value::Name(m) && m@ == n,
                    Err(e) => r matches Err(x) && x == e,
                }
            }),
    {
        if rest.len() > 0 {
            return Err(ParserError { kind: ParserErrorKind::WrongElementCount });
        }
        if eq_bytes(first, crate::keywords::lit_binary().as_slice()) {
            Ok(Value::Binary)
        } else if eq_bytes(first, crate::keywords::lit_boolean().as_slice()) {
            Ok(Value::Boolean)
        } else if eq_bytes(first, crate::keywords::lit_cal_address().as_slice()) {
            Ok(Value::CalAddress)
        } else if eq_bytes(first, crate::keywords::lit_date().as_slice()) {
            Ok(Value::Date)
        } else if eq_bytes(first, crate::keywords::lit_date_time().as_slice()) {
            Ok(Value::DateTime)
        } else if eq_bytes(first, crate::keywords::lit_duration().as_slice()) {
            Ok(Value::Duration)
        } else if eq_bytes(first, crate::keywords::lit_float().as_slice()) {
            Ok(Value::Float)
        } else if eq_bytes(first, crate::keywords::lit_integer().as_slice()) {
            Ok(Value::Integer)
        } else if eq_bytes(first, crate::keywords::lit_period().as_slice()) {
            Ok(Value::Period)
        } else if eq_bytes(first, crate::keywords::lit_recur().as_slice()) {
            Ok(Value::Recur)
        } else if eq_bytes(first, crate::keywords::lit_text().as_slice()) {
            Ok(Value::Text)
        } else if eq_bytes(first, crate::keywords::lit_time().as_slice()) {
            Ok(Value::Time)
        } else if eq_bytes(first, crate::keywords::lit_uri().as_slice()) {
            Ok(Value::Uri)
        } else if eq_bytes(first, crate::keywords::lit_utc_offset().as_slice()) {
            Ok(Value::UtcOffset)
        } else {
            match Name::parse(first) {
                Ok(n) => Ok(Value::Name(n)),
                Err(e) => Err(e),
            }
        }
    }
}

} // verus!