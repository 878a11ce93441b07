//! The name grammar: a token is either a registered ("IANA") name or an
//! extension name marked by `X-`, with an optional 3-character alphanumeric
//! vendor id. Tokens match `[A-Za-z0-9-]+`. Storage is case-sensitive, but
//! comparisons used for property dispatch are case-insensitive.

use vstd::prelude::*;

use crate::errors::{ParserError, ParserErrorKind};
use crate::helpers::{
    byte_is_alnum, check_iana_token, copy_range, is_alnum, seq_lower, spec_starts_with,
    strip_prefix, valid_name_token, HYPHEN,
};
use crate::keywords::{kw_x_prefix, lit_x_prefix};

verus! {

/// Spec-level form of an extension name.
#[verifier::ext_equal]
pub struct XNameV {
    pub vendor: Option<Seq<u8>>,
    pub value: Seq<u8>,
}

/// Spec-level form of a name.
#[verifier::ext_equal]
pub enum NameV {
    XName(XNameV),
    Iana(Seq<u8>),
}

impl XNameV {
    /// The vendor id, when present, has exactly three alphanumeric bytes,
    /// and the value is a name token.
    pub open spec fn wf(&self) -> bool {
        &&& valid_name_token(self.value)
        &&& (match self.vendor {
            Some(v) => v.len() == 3 && forall|i: int| 0 <= i < 3 ==> is_alnum(#[trigger] v[i]),
            None => true,
        })
    }

    /// The text form: `X-`, the vendor id and its dash if present, then the
    /// value.
    pub open spec fn text(&self) -> Seq<u8> {
        match self.vendor {
            Some(v) => kw_x_prefix() + v + seq![HYPHEN] + self.value,
            None => kw_x_prefix() + self.value,
        }
    }
}

impl NameV {
    /// Well-formed name: its token obeys the charset, a vendor id its shape.
    pub open spec fn wf(&self) -> bool {
        match self {
            NameV::XName(x) => x.wf(),
            NameV::Iana(t) => valid_name_token(*t),
        }
    }

    /// The text form of the name.
    pub open spec fn text(&self) -> Seq<u8> {
        match self {
            NameV::XName(x) => x.text(),
            NameV::Iana(t) => *t,
        }
    }

    /// This is the registered name `kw`, compared without regard to ASCII
    /// case.
    pub open spec fn is_iana_ci(&self, kw: Seq<u8>) -> bool {
        match self {
            NameV::Iana(t) => seq_lower(*t) == seq_lower(kw),
            NameV::XName(_) => false,
        }
    }
}

/// An extension name: optional 3-character alphanumeric vendor id, then the
/// name token itself (the `X-` marker is consumed before parsing).
#[derive(Debug, Clone, PartialEq, Eq)]
pub struct XName {
    /// 3-character ASCII alphanumeric vendor id.
    pub vendor: Option<[u8; 3]>,
    pub value: Vec<u8>,
}

impl View for XName {
    type V = XNameV;

    open spec fn view(&self) -> XNameV {
        XNameV {
            vendor: match self.vendor {
                Some(a) => Some(a@),
                None => None,
            },
            value: self.value@,
        }
    }
}

/// A name: registered, or an extension with its `X-` marker stripped.
#[derive(Debug, Clone, PartialEq, Eq)]
pub enum Name {
    XName(XName),
    Iana(Vec<u8>),
}

impl View for Name {
    type V = NameV;

    open spec fn view(&self) -> NameV {
        match self {
            Name::XName(x) => NameV::XName(x@),
            Name::Iana(t) => NameV::Iana(t@),
        }
    }
}

/// Parse the part after the `X-` marker: a vendor id is three alphanumeric
/// bytes followed by `-`; the remainder (or everything, without a vendor)
/// must be a name token.
pub open spec fn spec_parse_xname(s: Seq<u8>) -> Result<XNameV, ParserError> {
    if s.len() >= 4 && is_alnum(s[0]) && is_alnum(s[1]) && is_alnum(s[2]) && s[3] == HYPHEN {
        if valid_name_token(s.skip(4)) {
            Ok(XNameV { vendor: Some(s.take(3)), value: s.skip(4) })
        } else {
            Err(ParserError { kind: ParserErrorKind::InvalidName })
        }
    } else {
        if valid_name_token(s) {
            Ok(XNameV { vendor: None, value: s })
        } else {
            Err(ParserError { kind: ParserErrorKind::InvalidName })
        }
    }
}

/// Parse a name: an `X-` prefix marks an extension name, anything else must
/// be a registered name token.
pub open spec fn spec_parse_name(s: Seq<u8>) -> Result<NameV, ParserError> {
    if spec_starts_with(s, kw_x_prefix()) {
        match spec_parse_xname(s.skip(2)) {
            Ok(x) => Ok(NameV::XName(x)),
            Err(e) => Err(e),
        }
    } else if valid_name_token(s) {
        Ok(NameV::Iana(s))
    } else {
        Err(ParserError { kind: ParserErrorKind::InvalidName })
    }
}

impl XName {
    /// Parse an extension name (after its `X-` marker).
    pub fn parse(input: &[u8]) -> (r: Result<XName, ParserError>)
        ensures
            match spec_parse_xname(input@) {
                Ok(x) => r matches Ok(y) && y@ == x && y@.wf(),
                Err(e) => r matches Err(x) && x == e,
            },
    {
        let n = input.len();
        if n >= 4 && byte_is_alnum(input[0]) && byte_is_alnum(input[1]) && byte_is_alnum(input[2])
            && input[3] == HYPHEN {
            let value = copy_range(input, 4, n);
            match check_iana_token(value.as_slice()) {
                Ok(()) => {
                    let vendor: [u8; 3] = [input[0], input[1], input[2]];
                    let r = XName { vendor: Some(vendor), value };
                    proof {
                        assert(vendor@ =~= input@.take(3));
                        assert(r@ =~= (spec_parse_xname(input@)->Ok_0));
                    }
                    Ok(r)
                },
                Err(e) => Err(e),
            }
        } else {
            match check_iana_token(input) {
                Ok(()) => {
                    let r = XName { vendor: None, value: copy_range(input, 0, n) };
                    proof {
                        assert(r@ =~= (spec_parse_xname(input@)->Ok_0));
                    }
                    Ok(r)
                },
                Err(e) => Err(e),
            }
        }
    }
}

impl Name {
    /// Parse a name token, classifying `X-` extensions.
    pub fn parse(input: &[u8]) -> (r: Result<Name, ParserError>)
        ensures
            match spec_parse_name(input@) {
                Ok(n) => r matches Ok(m) && m@ == n && m@.wf(),
                Err(e) => r matches Err(x) && x == e,
            },
    {
        let xp = lit_x_prefix();
        match strip_prefix(input, xp.as_slice()) {
            Some(rest) => {
                match XName::parse(rest) {
                    Ok(x) => Ok(Name::XName(x)),
                    Err(e) => Err(e),
                }
            },
            None => {
                match check_iana_token(input) {
                    Ok(()) => Ok(Name::Iana(copy_range(input, 0, input.len()))),
                    Err(e) => Err(e),
                }
            },
        }
    }

    /// A registered name from a raw token (the token is not checked here).
    pub fn iana(name: Vec<u8>) -> (r: Name)
        ensures
            r@ == NameV::Iana(name@),
    {
        Name::Iana(name)
    }

    /// An extension name from its parts (the parts are not checked here).
    pub fn x_unchecked(name: XName) -> (r: Name)
        ensures
            r@ == NameV::XName(name@),
    {
        Name::XName(name)
    }

    /// Whether this is an extension name.
    pub fn is_extension(&self) -> (r: bool)
        ensures
            r == (self@ matches NameV::XName(_)),
    {
        match self {
            Name::XName(_) => true,
            Name::Iana(_) => false,
        }
    }

    /// Whether this is the registered name `kw`, compared without regard to
    /// ASCII case. Property dispatch goes through this comparison.
    pub fn matches_iana(&self, kw: &[u8]) -> (r: bool)
        ensures
            r == self@.is_iana_ci(kw@),
    {
        match self {
            Name::Iana(t) => crate::helpers::eq_bytes_ci(t.as_slice(), kw),
            Name::XName(_) => false,
        }
    }

    /// The text form of the name, with the `X-` marker and vendor id of an
    /// extension put back.
    pub fn format(&self) -> (r: Vec<u8>)
        ensures
            r@ == self@.text(),
    {
        match self {
            Name::Iana(t) => {
                let mut out: Vec<u8> = Vec::new();
                out.extend_from_slice(t.as_slice());
                proof {
                    assert(out@ =~= self@.text());
                }
                out
            },
            Name::XName(x) => {
                let mut out: Vec<u8> = Vec::new();
                let xp = lit_x_prefix();
                out.extend_from_slice(xp.as_slice());
                match &x.vendor {
                    Some(v) => {
                        out.extend_from_slice(v.as_slice());
                        out.push(HYPHEN);
                    },
                    None => {},
                }
                out.extend_from_slice(x.value.as_slice());
                proof {
                    assert(out@ =~= self@.text());
                }
                out
            },
        }
    }
}

} // verus!
