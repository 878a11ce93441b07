//! The calls into outside crates, and the value types built on them.
//!
//! Base64 decoding, URI validation and language-tag validation are done by
//! their crates; each call stands behind one trusted wrapper whose contract
//! names what the call computes. Everything around the calls is verified.

use vstd::prelude::*;

use crate::errors::{ParserError, ParserErrorKind};

verus! {

/// What base64 (standard alphabet, padded) decodes a byte string to, or
/// nothing when the input is not valid base64. Decoding is a function of
/// the input bytes alone.
pub uninterp spec fn base64_decode(s: Seq<u8>) -> Option<Seq<u8>>;

/// Whether a byte string is a well-formed URI. Acceptance is a function of
/// the bytes alone.
pub uninterp spec fn uri_well_formed(s: Seq<u8>) -> bool;

/// Whether a byte string is a well-formed language tag. Acceptance is a
/// function of the bytes alone.
pub uninterp spec fn language_tag_well_formed(s: Seq<u8>) -> bool;

/// Relies on base64's `Engine::decode` with the standard engine: it decodes
/// exactly the valid base64 inputs, as a function of the bytes alone.
#[verifier::external_body]
fn decode_base64(input: &[u8]) -> (r: Result<Vec<u8>, ParserError>)
    ensures
        r is Ok <==> base64_decode(input@) is Some,
        (r matches Ok(v) ==> base64_decode(input@) == Some(v@)),
        (r matches Err(e) ==> e == (ParserError { kind: ParserErrorKind::BadBase64 })),
{
    match base64::Engine::decode(&base64::prelude::BASE64_STANDARD, input) {
        Ok(v) => Ok(v),
        Err(_) => Err(ParserError { kind: ParserErrorKind::BadBase64 }),
    }
}

/// Relies on uriparse's `URIReference::try_from` for `&str` and
/// `URIReference::is_uri`: a byte string is a well-formed URI exactly when
/// it parses as a URI reference that carries a scheme. Acceptance is a
/// function of the bytes alone, and this path returns on every input
/// (bytes that are not UTF-8 are never a URI).
#[verifier::external_body]
fn check_uri(input: &[u8]) -> (r: bool)
    ensures
        r == uri_well_formed(input@),
{
    match core::str::from_utf8(input) {
        Ok(s) => match uriparse::URIReference::try_from(s) {
            Ok(r) => r.is_uri(),
            Err(_) => false,
        },
        Err(_) => false,
    }
}

/// Relies on oxilangtag's `LanguageTag::parse`: it accepts exactly the
/// well-formed language tags, as a function of the bytes alone (bytes that
/// are not UTF-8 are never a tag).
#[verifier::external_body]
fn check_language_tag(input: &[u8]) -> (r: bool)
    ensures
        r == language_tag_well_formed(input@),
{
    match core::str::from_utf8(input) {
        Ok(s) => oxilangtag::LanguageTag::parse(s).is_ok(),
        Err(_) => false,
    }
}

/// A URI, held as its validated text.
#[derive(Debug, Clone, PartialEq, Eq)]
pub struct Uri {
    text: Vec<u8>,
}

impl Uri {
    /// The text of the URI.
    pub closed spec fn text_spec(&self) -> Seq<u8> {
        self.text@
    }

    /// The held text is a well-formed URI.
    pub closed spec fn wf(&self) -> bool {
        uri_well_formed(self.text@)
    }

    /// Validate a byte string as a URI and take ownership of it.
    pub fn parse(input: Vec<u8>) -> (r: Result<Uri, ParserError>)
        ensures
            uri_well_formed(input@) ==> (r matches Ok(u) && u.text_spec() == input@ && u.wf()),
            !uri_well_formed(input@) ==> r == Err::<Uri, ParserError>(
                ParserError { kind: ParserErrorKind::BadUri },
            ),
    {
        if check_uri(input.as_slice()) {
            Ok(Uri { text: input })
        } else {
            Err(ParserError { kind: ParserErrorKind::BadUri })
        }
    }

    /// Read the text of the URI.
    pub fn as_bytes(&self) -> (r: &Vec<u8>)
        ensures
            r@ == self.text_spec(),
    {
        &self.text
    }
}

/// A calendar user address: a URI.
#[derive(Debug, Clone, PartialEq, Eq)]
pub struct CalendarUserAddress(pub Uri);

impl CalendarUserAddress {
    /// The held URI is well-formed.
    pub open spec fn wf(&self) -> bool {
        self.0.wf()
    }

    /// Validate a byte string as a calendar user address.
    pub fn parse(input: Vec<u8>) -> (r: Result<CalendarUserAddress, ParserError>)
        ensures
            uri_well_formed(input@) ==> (r matches Ok(a) && a.0.text_spec() == input@ && a.wf()),
            !uri_well_formed(input@) ==> r == Err::<CalendarUserAddress, ParserError>(
                ParserError { kind: ParserErrorKind::BadUri },
            ),
    {
        match Uri::parse(input) {
            Ok(u) => Ok(CalendarUserAddress(u)),
            Err(e) => Err(e),
        }
    }
}

/// Binary data, decoded from its base64 transport form.
#[derive(Debug, Clone, PartialEq, Eq)]
pub struct Binary {
    pub data: Vec<u8>,
}

impl Binary {
    /// Decode a base64 byte string.
    pub fn parse(input: &[u8]) -> (r: Result<Binary, ParserError>)
        ensures
            (match base64_decode(input@) {
                Some(d) => r matches Ok(b) && b.data@ == d,
                None => r == Err::<Binary, ParserError>(
                    ParserError { kind: ParserErrorKind::BadBase64 },
                ),
            }),
    {
        match decode_base64(input) {
            Ok(data) => Ok(Binary { data }),
            Err(e) => Err(e),
        }
    }
}

/// A language tag, held as its validated text.
#[derive(Debug, Clone, PartialEq, Eq)]
pub struct Language {
    text: Vec<u8>,
}

impl Language {
    /// The text of the tag.
    pub closed spec fn text_spec(&self) -> Seq<u8> {
        self.text@
    }

    /// The held text is a well-formed language tag.
    pub closed spec fn wf(&self) -> bool {
        language_tag_well_formed(self.text@)
    }

    /// Validate a byte string as a language tag and take ownership of it.
    pub fn parse(input: Vec<u8>) -> (r: Result<Language, ParserError>)
        ensures
            language_tag_well_formed(input@) ==> (r matches Ok(l) && l.text_spec() == input@
                && l.wf()),
            !language_tag_well_formed(input@) ==> r == Err::<Language, ParserError>(
                ParserError { kind: ParserErrorKind::BadLanguageTag },
            ),
    {
        if check_language_tag(input.as_slice()) {
            Ok(Language { text: input })
        } else {
            Err(ParserError { kind: ParserErrorKind::BadLanguageTag })
        }
    }

    /// Read the text of the tag.
    pub fn as_bytes(&self) -> (r: &Vec<u8>)
        ensures
            r@ == self.text_spec(),
    {
        &self.text
    }
}

} // verus!
