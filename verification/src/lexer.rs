//! The lookahead line buffer: logical lines are parsed on demand, one line
//! of lookahead is kept, and a whole nested block can be skipped by a
//! depth-counted scan.

use vstd::prelude::*;

use crate::errors::{ParserError, ParserErrorKind};
use crate::keywords::{kw_begin, kw_end, lit_begin, lit_end};
use crate::line::{spec_parse_line, Line, LineV};
use crate::unfold::{spec_unfold, unfold_lines};

verus! {

/// The buffered reader over the unfolded logical lines of a document.
pub struct Lexer {
    lines: Vec<Vec<u8>>,
    pos: usize,
    cache: Option<Line>,
}

impl Lexer {
    /// The cache, when full, holds the parsed form of the line just before
    /// the read position.
    pub closed spec fn wf(&self) -> bool {
        &&& (match self.cache {
            Some(l) => 1 <= self.pos <= self.lines@.len() && spec_parse_line(
                self.lines@[self.pos - 1]@,
            ) == Ok::<LineV, ParserError>(l@),
            None => self.pos <= self.lines@.len(),
        })
    }

    /// The logical lines not yet consumed (a cached line is still
    /// unconsumed).
    pub closed spec fn remaining(&self) -> Seq<Seq<u8>> {
        let all = self.lines@.map_values(|l: Vec<u8>| l@);
        if self.cache is Some {
            all.skip(self.pos - 1)
        } else {
            all.skip(self.pos as int)
        }
    }

    /// Start reading a document: its logical lines, in order.
    pub fn new(input: &[u8]) -> (r: Lexer)
        ensures
            r.wf(),
            r.remaining() == spec_unfold(input@),
    {
        let lines = unfold_lines(input);
        let r = Lexer { lines, pos: 0, cache: None };
        proof {
            assert(r.remaining() =~= spec_unfold(input@));
        }
        r
    }
}

/// Take one parsed line off the front: nothing at end of input, or the
/// parsed head and the rest.
pub open spec fn spec_take_next(rem: Seq<Seq<u8>>) -> Result<
    Option<(LineV, Seq<Seq<u8>>)>,
    ParserError,
> {
    if rem.len() == 0 {
        Ok(None)
    } else {
        match spec_parse_line(rem[0]) {
            Err(e) => Err(e),
            Ok(lv) => Ok(Some((lv, rem.skip(1)))),
        }
    }
}

/// Skip the rest of a block whose `BEGIN` was just consumed: a depth
/// counter grows on every `BEGIN` and shrinks on every `END`; reaching the
/// end of input first is an unexpected-end error.
pub open spec fn spec_skip_block(rem: Seq<Seq<u8>>, depth: int) -> Result<Seq<Seq<u8>>, ParserError>
    decreases rem.len(),
{
    if rem.len() == 0 {
        Err(ParserError { kind: ParserErrorKind::UnexpectedEof })
    } else {
        match spec_parse_line(rem[0]) {
            Err(e) => Err(e),
            Ok(lv) => {
                let d2 = if lv.name.is_iana_ci(kw_begin()) {
                    depth + 1
                } else if lv.name.is_iana_ci(kw_end()) {
                    depth - 1
                } else {
                    depth
                };
                if d2 == 0 {
                    Ok(rem.skip(1))
                } else {
                    spec_skip_block(rem.skip(1), d2)
                }
            },
        }
    }
}

impl Lexer {
    /// Whether the input is exhausted; looking requires parsing one line,
    /// whose errors surface here.
    pub fn is_empty(&mut self) -> (r: Result<bool, ParserError>)
        requires
            old(self).wf(),
        ensures
            final(self).wf(),
            match spec_take_next(old(self).remaining()) {
                Ok(o) => r matches Ok(b) && b == (o is None) && final(self).remaining() == old(self).remaining(),
                Err(e) => r matches Err(x) && x == e && final(self).remaining() == old(self).remaining().skip(1),
            },
    {
        match Self::ensure_cache(self) {
            Err(e) => Err(e),
            Ok(b) => Ok(!b),
        }
    }

    /// Make sure one parsed line stands in the cache; false at end of
    /// input. A line whose parse fails is lost.
    fn ensure_cache(&mut self) -> (r: Result<bool, ParserError>)
        requires
            old(self).wf(),
        ensures
            final(self).wf(),
            match spec_take_next(old(self).remaining()) {
                Ok(o) => r matches Ok(b) && b == (o is Some) && final(self).remaining() == old(self).remaining() && (o matches Some(p) ==> final(self).cache_view() == Some(p.0)),
                Err(e) => r matches Err(x) && x == e && final(self).remaining() == old(self).remaining().skip(1),
            },
    {
        if self.cache.is_some() {
            return Ok(true);
        }
        if self.pos >= self.lines.len() {
            return Ok(false);
        }
        let ghost rem0 = self.remaining();
        proof {
            assert(rem0[0] == self.lines@[self.pos as int]@);
        }
        let line = &self.lines[self.pos];
        match Line::parse(line.as_slice()) {
            Ok(l) => {
                self.cache = Some(l);
                self.pos = self.pos + 1;
                proof {
                    assert(self.remaining() =~= rem0);
                }
                Ok(true)
            },
            Err(e) => {
                self.pos = self.pos + 1;
                proof {
                    assert(self.remaining() =~= rem0.skip(1));
                }
                Err(e)
            },
        }
    }

    /// The parsed form of the cached head line, if one is cached.
    pub closed spec fn cache_view(&self) -> Option<LineV> {
        match self.cache {
            Some(l) => Some(l@),
            None => None,
        }
    }

    /// Look at the next parsed line without consuming it, or at nothing at
    /// end of input. The look itself parses the line, so its errors surface
    /// here; a line whose parse fails is lost.
    pub fn next(&mut self) -> (r: Result<Option<&Line>, ParserError>)
        requires
            old(self).wf(),
        ensures
            final(self).wf(),
            match spec_take_next(old(self).remaining()) {
                Ok(None) => r matches Ok(o) && o is None && final(self).remaining() == old(self).remaining(),
                Ok(Some((lv, _rem2))) => r matches Ok(o) && o matches Some(l) && l@ == lv
                    && final(self).remaining() == old(self).remaining(),
                Err(e) => r matches Err(x) && x == e && final(self).remaining() == old(self).remaining().skip(1),
            },
    {
        match Self::ensure_cache(self) {
            Err(e) => Err(e),
            Ok(false) => Ok(None),
            Ok(true) => {
                match &self.cache {
                    Some(l) => Ok(Some(l)),
                    None => {
                        proof {
                            assert(false);
                        }
                        Ok(None)
                    },
                }
            },
        }
    }

    /// Consume and return the next parsed line, or nothing at end of input.
    pub fn take_next(&mut self) -> (r: Result<Option<Line>, ParserError>)
        requires
            old(self).wf(),
        ensures
            final(self).wf(),
            match spec_take_next(old(self).remaining()) {
                Ok(None) => r matches Ok(o) && o is None && final(self).remaining() == old(self).remaining(),
                Ok(Some((lv, rem2))) => r matches Ok(o) && o matches Some(l) && l@ == lv
                    && final(self).remaining() == rem2,
                Err(e) => r matches Err(x) && x == e && final(self).remaining() == old(self).remaining().skip(1),
            },
    {
        let ghost rem0 = self.remaining();
        match Self::ensure_cache(self) {
            Err(e) => Err(e),
            Ok(false) => Ok(None),
            Ok(true) => {
                let l = self.cache.take();
                proof {
                    assert(self.remaining() =~= rem0.skip(1));
                }
                Ok(l)
            },
        }
    }

    /// Advance past one line without parsing it (used to discard a line
    /// whose raw form was already consumed by an earlier look).
    pub fn step(&mut self)
        requires
            old(self).wf(),
        ensures
            final(self).wf(),
            old(self).remaining().len() > 0 ==> final(self).remaining() == old(
                self).remaining().skip(1),
            old(self).remaining().len() == 0 ==> final(self).remaining() == old(self).remaining(),
    {
        let ghost rem0 = self.remaining();
        if self.cache.is_some() {
            self.cache = None;
            proof {
                assert(self.remaining() =~= rem0.skip(1));
            }
        } else {
            if self.pos < self.lines.len() {
                self.pos = self.pos + 1;
                proof {
                    assert(self.remaining() =~= rem0.skip(1));
                }
            } else {
                proof {
                    assert(self.remaining() =~= rem0);
                }
            }
        }
    }

    /// Assume a block was just begun: consume lines, counting `BEGIN` up
    /// and `END` down, until the depth returns to zero.
    pub fn skip_current(&mut self) -> (r: Result<(), ParserError>)
        requires
            old(self).wf(),
        ensures
            final(self).wf(),
            match spec_skip_block(old(self).remaining(), 1) {
                Ok(rem2) => r is Ok && final(self).remaining() == rem2,
                Err(e) => r matches Err(x) && x == e,
            },
    {
        let ghost rem_start = self.remaining();
        let ghost len0 = rem_start.len();
        let mut depth: u128 = 1;
        let total = self.lines.len();
        proof {
            assert(self.remaining().len() <= self.lines@.len());
            assert(len0 <= total);
        }
        loop
            invariant
                self.wf(),
                rem_start == old(self).remaining(),
                len0 == rem_start.len(),
                len0 <= usize::MAX,
                depth >= 1,
                depth <= 1 + len0 - self.remaining().len(),
                self.remaining().len() <= len0,
                spec_skip_block(rem_start, 1) == spec_skip_block(
                    self.remaining(),
                    depth as int,
                ),
            decreases self.remaining().len(),
        {
            let ghost rem0 = self.remaining();
            let line = match Self::take_next(self) {
                Err(e) => {
                    return Err(e);
                },
                Ok(None) => {
                    return Err(ParserError { kind: ParserErrorKind::UnexpectedEof });
                },
                Ok(Some(l)) => l,
            };
            let b = lit_begin();
            let en = lit_end();
            if line.name.matches_iana(b.as_slice()) {
                depth = depth + 1;
            } else if line.name.matches_iana(en.as_slice()) {
                depth = depth - 1;
            }
            if depth == 0 {
                return Ok(());
            }
        }
    }
}

} // verus!
