//! The content-line splitter: one logical line becomes a name, a parameter
//! map and a raw value.

use vstd::prelude::*;

use crate::errors::{ParserError, ParserErrorKind};
use crate::helpers::{
    spec_split_once, spec_split_once_outside_quotes, spec_try_split_once, split_once,
    split_once_outside_quotes, try_split_once, COLON, SEMI,
};
use crate::name::{Name, NameV, XNameV};
use crate::param_map::{spec_parse_param, ParamMap};

verus! {

/// Spec-level form of a parsed line.
#[verifier::ext_equal]
pub struct LineV {
    pub name: NameV,
    pub iana: Seq<(Seq<u8>, Seq<Seq<u8>>)>,
    pub extend: Seq<(XNameV, Seq<Seq<u8>>)>,
    pub value: Seq<u8>,
}

/// A parsed input line: an intermediate stage in calendar parsing.
#[derive(Debug, Clone, PartialEq, Eq)]
pub struct Line {
    pub name: Name,
    pub params: ParamMap,
    pub value: Vec<u8>,
}

impl View for Line {
    type V = LineV;

    open spec fn view(&self) -> LineV {
        LineV {
            name: self.name@,
            iana: self.params.iana_view(),
            extend: self.params.extend_view(),
            value: self.value@,
        }
    }
}

/// The `;`-separated parameters of a line, split outside quotes, each added
/// to the map in turn.
pub open spec fn params_loop(
    s: Seq<u8>,
    mi: Seq<(Seq<u8>, Seq<Seq<u8>>)>,
    me: Seq<(XNameV, Seq<Seq<u8>>)>,
) -> Result<(Seq<(Seq<u8>, Seq<Seq<u8>>)>, Seq<(XNameV, Seq<Seq<u8>>)>), ParserError>
    decreases s.len(),
    via params_loop_dec
{
    if s.len() == 0 {
        Ok((mi, me))
    } else {
        let (param, rest) = spec_split_once_outside_quotes(s, SEMI);
        match spec_parse_param(mi, me, param) {
            Err(e) => Err(e),
            Ok((mi2, me2)) => params_loop(rest, mi2, me2),
        }
    }
}

#[via_fn]
proof fn params_loop_dec(
    s: Seq<u8>,
    mi: Seq<(Seq<u8>, Seq<Seq<u8>>)>,
    me: Seq<(XNameV, Seq<Seq<u8>>)>,
) {
    crate::helpers::lemma_find_split_oq_bounds(s, SEMI, 0, false);
}

/// Content-line grammar: split once on the first `:` into prefix and value
/// (no `:` is a malformed line); the prefix up to the first `;` is the
/// name, the rest its parameters.
pub open spec fn spec_parse_line(s: Seq<u8>) -> Result<LineV, ParserError> {
    match spec_try_split_once(s, COLON) {
        None => Err(ParserError { kind: ParserErrorKind::MalformedLine }),
        Some((prefix, value)) => {
            let (name_tok, params_str) = spec_split_once(prefix, SEMI);
            match crate::name::spec_parse_name(name_tok) {
                Err(e) => Err(e),
                Ok(nv) => match params_loop(
                    params_str,
                    Seq::<(Seq<u8>, Seq<Seq<u8>>)>::empty(),
                    Seq::<(XNameV, Seq<Seq<u8>>)>::empty(),
                ) {
                    Err(e) => Err(e),
                    Ok((mi, me)) => Ok(LineV { name: nv, iana: mi, extend: me, value }),
                },
            }
        },
    }
}

impl Line {
    /// Split a logical line into name, parameters and value.
    pub fn parse(input: &[u8]) -> (r: Result<Line, ParserError>)
        ensures
            match spec_parse_line(input@) {
                Ok(lv) => r matches Ok(l) && l@ == lv,
                Err(e) => r matches Err(x) && x == e,
            },
    {
        let parts = match try_split_once(input, COLON) {
            Some(p) => p,
            None => {
                return Err(ParserError { kind: ParserErrorKind::MalformedLine });
            },
        };
        let (prefix, value) = parts;
        let (name_tok, params_str) = split_once(prefix.as_slice(), SEMI);
        let name = match Name::parse(name_tok.as_slice()) {
            Ok(n) => n,
            Err(e) => {
                return Err(e);
            },
        };
        let ghost gprefix = prefix@;
        let ghost gvalue = value@;
        let ghost gname_tok = name_tok@;
        let ghost loop_start = params_str@;
        let mut params = ParamMap::new();
        let mut rest = params_str;
        while rest.len() != 0
            invariant
                spec_try_split_once(input@, COLON) == Some((gprefix, gvalue)),
                spec_split_once(gprefix, SEMI) == (gname_tok, loop_start),
                crate::name::spec_parse_name(gname_tok) is Ok,
                name@ == (crate::name::spec_parse_name(gname_tok)->Ok_0),
                params_loop(
                    loop_start,
                    Seq::<(Seq<u8>, Seq<Seq<u8>>)>::empty(),
                    Seq::<(XNameV, Seq<Seq<u8>>)>::empty(),
                ) == params_loop(rest@, params.iana_view(), params.extend_view()),
            decreases rest@.len(),
        {
            proof {
                crate::helpers::lemma_find_split_oq_bounds(rest@, SEMI, 0, false);
            }
            let (param, next) = split_once_outside_quotes(rest.as_slice(), SEMI);
            match ParamMap::parse_param(&mut params, param.as_slice()) {
                Ok(()) => {},
                Err(e) => {
                    return Err(e);
                },
            }
            rest = next;
        }
        let r = Line { name, params, value };
        proof {
            assert(r@ =~= (spec_parse_line(input@)->Ok_0));
        }
        Ok(r)
    }

    /// The key of some registered-name parameter still unconsumed, if any
    /// (handlers that allow no parameters use this to report one).
    pub fn first_iana_param(&self) -> (r: Option<&Vec<u8>>)
        ensures
            self.params.iana_view().len() == 0 <==> r is None,
            (r matches Some(k) ==> self.params.iana_view().len() > 0 && k@
                == self.params.iana_view()[0].0),
    {
        if self.params.iana.len() > 0 {
            proof {
                assert(self.params.iana_view()[0] == (
                    self.params.iana@[0].0@,
                    crate::param_map::vals_view(self.params.iana@[0].1),
                ));
            }
            Some(&self.params.iana[0].0)
        } else {
            proof {
                assert(self.params.iana_view().len() == 0);
            }
            None
        }
    }
}

} // verus!
