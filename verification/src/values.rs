//! Value types beyond the date and duration scalars: escaped text lists,
//! booleans, integers, decimal text and UTC offsets.

use vstd::prelude::*;

use crate::errors::{ParserError, ParserErrorKind};
use crate::helpers::{
    byte_is_digit, copy_range, digit_run_len, digits_val, is_digit, lemma_digit_run_len,
    lemma_digit_run_len_from, lemma_digits_val_monotone, lemma_digits_val_step, BACKSLASH, COMMA,
    HYPHEN, LF, SEMI,
};
use crate::types::{
    opt_sign_is_negative, spec_2digit_int, spec_opt_sign, time_hour, time_minute, time_second,
};
use crate::vec_one::VecOne;

verus! {

pub const LOWER_N: u8 = 110;

pub const UPPER_N: u8 = 78;

// ---------------------------------------------------------------------------
// TEXT
// ---------------------------------------------------------------------------

/// One step at a time through a text value: escapes `\\` `\,` `\;` become
/// the escaped byte, `\N` and `\n` a newline, a bare `,` starts a new list
/// element, a bare `;` is an error, everything else passes through.
pub open spec fn text_loop(rem: Seq<u8>, acc: Seq<Seq<u8>>, cur: Seq<u8>) -> Result<
    Seq<Seq<u8>>,
    ParserError,
>
    decreases rem.len(),
{
    if rem.len() == 0 {
        Ok(acc.push(cur))
    } else if rem[0] == BACKSLASH {
        if rem.len() > 1 && (rem[1] == BACKSLASH || rem[1] == COMMA || rem[1] == SEMI) {
            text_loop(rem.skip(2), acc, cur.push(rem[1]))
        } else if rem.len() > 1 && (rem[1] == UPPER_N || rem[1] == LOWER_N) {
            text_loop(rem.skip(2), acc, cur.push(LF))
        } else {
            Err(ParserError { kind: ParserErrorKind::BadEscape })
        }
    } else if rem[0] == COMMA {
        text_loop(rem.skip(1), acc.push(cur), Seq::<u8>::empty())
    } else if rem[0] == SEMI {
        Err(ParserError { kind: ParserErrorKind::UnescapedSemicolon })
    } else {
        text_loop(rem.skip(1), acc, cur.push(rem[0]))
    }
}

/// A text value parses to its list of unescaped elements (never empty: an
/// empty input is one empty element).
pub open spec fn spec_parse_text(s: Seq<u8>) -> Result<Seq<Seq<u8>>, ParserError> {
    text_loop(s, Seq::<Seq<u8>>::empty(), Seq::<u8>::empty())
}

/// The escaped form of one byte: the reverse mapping of the four escapes.
pub open spec fn escape_byte(b: u8) -> Seq<u8> {
    if b == BACKSLASH {
        seq![BACKSLASH, BACKSLASH]
    } else if b == SEMI {
        seq![BACKSLASH, SEMI]
    } else if b == COMMA {
        seq![BACKSLASH, COMMA]
    } else if b == LF {
        seq![BACKSLASH, LOWER_N]
    } else {
        seq![b]
    }
}

/// The escaped form of one text element.
pub open spec fn escape_text(e: Seq<u8>) -> Seq<u8>
    decreases e.len(),
{
    if e.len() == 0 {
        Seq::<u8>::empty()
    } else {
        escape_byte(e[0]) + escape_text(e.skip(1))
    }
}

/// The elements after the first, each preceded by a `,`.
pub open spec fn spec_format_text_rest(l: Seq<Seq<u8>>) -> Seq<u8>
    decreases l.len(),
{
    if l.len() == 0 {
        Seq::<u8>::empty()
    } else {
        seq![COMMA] + escape_text(l[0]) + spec_format_text_rest(l.skip(1))
    }
}

/// A text list renders as its escaped elements joined with `,`.
pub open spec fn spec_format_text(l: Seq<Seq<u8>>) -> Seq<u8> {
    if l.len() == 0 {
        Seq::<u8>::empty()
    } else {
        escape_text(l[0]) + spec_format_text_rest(l.skip(1))
    }
}

/// Escaping one more byte extends the escaped form at the back.
pub proof fn lemma_escape_text_snoc(e: Seq<u8>, i: int)
    requires
        0 <= i < e.len(),
    ensures
        escape_text(e.take(i + 1)) == escape_text(e.take(i)) + escape_byte(e[i]),
    decreases i,
{
    if i == 0 {
        assert(e.take(1)[0] == e[0]);
        assert(e.take(1).skip(1) =~= Seq::<u8>::empty());
        assert(escape_text(Seq::<u8>::empty()) =~= Seq::<u8>::empty());
        assert(escape_text(e.take(1)) =~= escape_byte(e[0]));
        assert(e.take(0) =~= Seq::<u8>::empty());
        assert(escape_text(e.take(0)) + escape_byte(e[0]) =~= escape_byte(e[0]));
    } else {
        lemma_escape_text_snoc(e.skip(1), i - 1);
        assert(e.take(i + 1)[0] == e[0]);
        assert(e.take(i + 1).skip(1) =~= e.skip(1).take(i));
        assert(e.take(i)[0] == e[0]);
        assert(e.take(i).skip(1) =~= e.skip(1).take(i - 1));
        assert(e.skip(1)[i - 1] == e[i]);
        assert(escape_text(e.take(i + 1)) == escape_byte(e[0]) + escape_text(e.skip(1).take(i)));
        assert(escape_byte(e[0]) + (escape_text(e.skip(1).take(i - 1)) + escape_byte(e[i])) =~= (
        escape_byte(e[0]) + escape_text(e.skip(1).take(i - 1))) + escape_byte(e[i]));
    }
}

/// Render one text element with its four escapes applied.
fn escape_element(e: &[u8]) -> (r: Vec<u8>)
    ensures
        r@ == escape_text(e@),
{
    let n = e.len();
    let mut out: Vec<u8> = Vec::new();
    let mut i: usize = 0;
    proof {
        assert(e@.take(0) =~= Seq::<u8>::empty());
    }
    while i < n
        invariant
            n == e@.len(),
            0 <= i <= n,
            out@ == escape_text(e@.take(i as int)),
        decreases n - i,
    {
        proof {
            lemma_escape_text_snoc(e@, i as int);
        }
        let b = e[i];
        if b == BACKSLASH {
            out.push(BACKSLASH);
            out.push(BACKSLASH);
        } else if b == SEMI {
            out.push(BACKSLASH);
            out.push(SEMI);
        } else if b == COMMA {
            out.push(BACKSLASH);
            out.push(COMMA);
        } else if b == LF {
            out.push(BACKSLASH);
            out.push(LOWER_N);
        } else {
            out.push(b);
        }
        proof {
            assert(out@ =~= escape_text(e@.take(i as int)) + escape_byte(e@[i as int]));
        }
        i += 1;
    }
    proof {
        assert(e@.take(n as int) =~= e@);
    }
    out
}

/// One more element extends the rendered tail at the back.
pub proof fn lemma_format_text_rest_snoc(l: Seq<Seq<u8>>, i: int)
    requires
        0 <= i < l.len(),
    ensures
        spec_format_text_rest(l.take(i + 1)) == spec_format_text_rest(l.take(i)) + seq![COMMA]
            + escape_text(l[i]),
    decreases i,
{
    if i == 0 {
        assert(l.take(1)[0] == l[0]);
        assert(l.take(1).skip(1) =~= Seq::<Seq<u8>>::empty());
        assert(spec_format_text_rest(Seq::<Seq<u8>>::empty()) =~= Seq::<u8>::empty());
        assert(spec_format_text_rest(l.take(1)) =~= seq![COMMA] + escape_text(l[0]));
        assert(l.take(0) =~= Seq::<Seq<u8>>::empty());
        assert(spec_format_text_rest(l.take(0)) + seq![COMMA] + escape_text(l[0]) =~= seq![COMMA]
            + escape_text(l[0]));
    } else {
        lemma_format_text_rest_snoc(l.skip(1), i - 1);
        assert(l.take(i + 1)[0] == l[0]);
        assert(l.take(i + 1).skip(1) =~= l.skip(1).take(i));
        assert(l.take(i)[0] == l[0]);
        assert(l.take(i).skip(1) =~= l.skip(1).take(i - 1));
        assert(l.skip(1)[i - 1] == l[i]);
        assert(spec_format_text_rest(l.take(i + 1)) == seq![COMMA] + escape_text(l[0])
            + spec_format_text_rest(l.skip(1).take(i)));
        assert((seq![COMMA] + escape_text(l[0]) + (spec_format_text_rest(l.skip(1).take(i - 1))
            + seq![COMMA] + escape_text(l[i]))) =~= ((seq![COMMA] + escape_text(l[0])
            + spec_format_text_rest(l.skip(1).take(i - 1))) + seq![COMMA] + escape_text(l[i])));
        assert(spec_format_text_rest(l.skip(1).take(i)) =~= spec_format_text_rest(
            l.skip(1).take(i - 1),
        ) + seq![COMMA] + escape_text(l[i]));
    }
}

/// Escaped text values: a non-empty list of elements, where escaped
/// characters were decoded and a bare `,` separated the elements.
#[derive(Debug, Clone, PartialEq, Eq)]
pub struct Text(pub VecOne<Vec<u8>>);

impl Text {
    /// The decoded elements.
    pub open spec fn texts(&self) -> Seq<Seq<u8>> {
        self.0.elems().map_values(|v: Vec<u8>| v@)
    }

    /// Decode a text value into its list of elements.
    pub fn parse(input: &[u8]) -> (r: Result<Text, ParserError>)
        ensures
            match spec_parse_text(input@) {
                Ok(l) => r matches Ok(t) && t.texts() == l,
                Err(e) => r matches Err(x) && x == e,
            },
    {
        let n = input.len();
        let mut acc: Vec<Vec<u8>> = Vec::new();
        let mut cur: Vec<u8> = Vec::new();
        let mut i: usize = 0;
        proof {
            assert(input@.skip(0) =~= input@);
            assert(acc@.map_values(|v: Vec<u8>| v@) =~= Seq::<Seq<u8>>::empty());
        }
        while i < n
            invariant
                n == input@.len(),
                0 <= i <= n,
                spec_parse_text(input@) == text_loop(
                    input@.skip(i as int),
                    acc@.map_values(|v: Vec<u8>| v@),
                    cur@,
                ),
            decreases n - i,
        {
            let ghost rem = input@.skip(i as int);
            let ghost acc0 = acc@.map_values(|v: Vec<u8>| v@);
            let ghost cur0 = cur@;
            proof {
                assert(rem[0] == input@[i as int]);
                assert(rem.skip(1) =~= input@.skip(i as int + 1));
                if rem.len() > 1 {
                    assert(rem[1] == input@[i as int + 1]);
                    assert(rem.skip(2) =~= input@.skip(i as int + 2));
                }
            }
            let b = input[i];
            if b == BACKSLASH {
                if i + 1 < n && (input[i + 1] == BACKSLASH || input[i + 1] == COMMA || input[i + 1]
                    == SEMI) {
                    cur.push(input[i + 1]);
                    i += 2;
                } else if i + 1 < n && (input[i + 1] == UPPER_N || input[i + 1] == LOWER_N) {
                    cur.push(LF);
                    i += 2;
                } else {
                    return Err(ParserError { kind: ParserErrorKind::BadEscape });
                }
            } else if b == COMMA {
                acc.push(cur);
                cur = Vec::new();
                i += 1;
                proof {
                    assert(acc@.map_values(|v: Vec<u8>| v@) =~= acc0.push(cur0));
                }
            } else if b == SEMI {
                return Err(ParserError { kind: ParserErrorKind::UnescapedSemicolon });
            } else {
                cur.push(b);
                i += 1;
            }
        }
        proof {
            assert(input@.skip(n as int) =~= Seq::<u8>::empty());
        }
        let mut list = acc;
        list.push(cur);
        let first = list.remove(0);
        let r = Text(VecOne::from_parts(first, list));
        proof {
            assert(r.texts() =~= (spec_parse_text(input@)->Ok_0));
        }
        Ok(r)
    }

    /// Render the elements with the four escapes applied, joined with `,`.
    pub fn format(&self) -> (r: Vec<u8>)
        ensures
            r@ == spec_format_text(self.texts()),
    {
        let ghost l = self.texts();
        let mut out = escape_element(self.0.first.as_slice());
        proof {
            assert(l[0] == self.0.first@);
            assert(l.skip(1) =~= self.0.rest@.map_values(|v: Vec<u8>| v@));
            assert(l.skip(1).take(0) =~= Seq::<Seq<u8>>::empty());
        }
        let n = self.0.rest.len();
        let mut i: usize = 0;
        while i < n
            invariant
                n == self.0.rest@.len(),
                0 <= i <= n,
                l == self.texts(),
                l.len() == n + 1,
                l[0] == self.0.first@,
                l.skip(1) == self.0.rest@.map_values(|v: Vec<u8>| v@),
                out@ == escape_text(l[0]) + spec_format_text_rest(l.skip(1).take(i as int)),
            decreases n - i,
        {
            proof {
                lemma_format_text_rest_snoc(l.skip(1), i as int);
                assert(l.skip(1)[i as int] == self.0.rest@[i as int]@);
            }
            out.push(COMMA);
            let mut e = escape_element(self.0.rest[i].as_slice());
            out.append(&mut e);
            proof {
                assert(out@ =~= escape_text(l[0]) + (spec_format_text_rest(
                    l.skip(1).take(i as int),
                ) + seq![COMMA] + escape_text(l.skip(1)[i as int])));
            }
            i += 1;
        }
        proof {
            assert(l.skip(1).take(n as int) =~= l.skip(1));
        }
        out
    }
}

/// Processing an escaped element appends the element to the current one.
pub proof fn lemma_text_loop_escaped(e: Seq<u8>, rest: Seq<u8>, acc: Seq<Seq<u8>>, cur: Seq<u8>)
    ensures
        text_loop(escape_text(e) + rest, acc, cur) == text_loop(rest, acc, cur + e),
    decreases e.len(),
{
    if e.len() == 0 {
        assert(escape_text(e) + rest =~= rest);
        assert(cur + e =~= cur);
    } else {
        let b = e[0];
        let s = escape_text(e) + rest;
        let s2 = escape_text(e.skip(1)) + rest;
        lemma_text_loop_escaped(e.skip(1), rest, acc, cur.push(b));
        if b == BACKSLASH || b == SEMI || b == COMMA {
            assert(s[0] == BACKSLASH);
            assert(s[1] == b);
            assert(s.skip(2) =~= s2);
            assert(cur.push(b) + e.skip(1) =~= cur + e);
        } else if b == LF {
            assert(s[0] == BACKSLASH);
            assert(s[1] == LOWER_N);
            assert(s.skip(2) =~= s2);
            assert(cur.push(LF) + e.skip(1) =~= cur + e);
        } else {
            assert(s[0] == b);
            assert(s.skip(1) =~= s2);
            assert(cur.push(b) + e.skip(1) =~= cur + e);
        }
    }
}

/// Processing a rendered list from a partial state yields the accumulated
/// elements, the current one extended by the first, then the rest.
pub proof fn lemma_text_loop_format(l: Seq<Seq<u8>>, acc: Seq<Seq<u8>>, cur: Seq<u8>)
    requires
        l.len() >= 1,
    ensures
        text_loop(spec_format_text(l), acc, cur) == Ok::<Seq<Seq<u8>>, ParserError>(
            acc + seq![cur + l[0]] + l.skip(1),
        ),
    decreases l.len(),
{
    if l.len() == 1 {
        assert(spec_format_text(l) =~= escape_text(l[0]) + Seq::<u8>::empty());
        lemma_text_loop_escaped(l[0], Seq::<u8>::empty(), acc, cur);
        assert(text_loop(Seq::<u8>::empty(), acc, cur + l[0]) == Ok::<Seq<Seq<u8>>, ParserError>(
            acc.push(cur + l[0]),
        ));
        assert(acc.push(cur + l[0]) =~= acc + seq![cur + l[0]] + l.skip(1));
    } else {
        let tail = l.skip(1);
        assert(spec_format_text_rest(tail) =~= seq![COMMA] + (escape_text(tail[0])
            + spec_format_text_rest(tail.skip(1))));
        assert(seq![COMMA] + (escape_text(tail[0]) + spec_format_text_rest(tail.skip(1))) =~= seq![
            COMMA,
        ] + spec_format_text(tail)) by {
            assert(spec_format_text(tail) =~= escape_text(tail[0]) + spec_format_text_rest(
                tail.skip(1),
            ));
        }
        assert(spec_format_text(l) =~= escape_text(l[0]) + (seq![COMMA] + spec_format_text(tail)));
        lemma_text_loop_escaped(l[0], seq![COMMA] + spec_format_text(tail), acc, cur);
        let rest = seq![COMMA] + spec_format_text(tail);
        assert(rest[0] == COMMA);
        assert(rest.skip(1) =~= spec_format_text(tail));
        lemma_text_loop_format(tail, acc.push(cur + l[0]), Seq::<u8>::empty());
        assert(Seq::<u8>::empty() + tail[0] =~= tail[0]);
        assert(acc.push(cur + l[0]) + seq![tail[0]] + tail.skip(1) =~= acc + seq![cur + l[0]]
            + l.skip(1)) by {
            assert forall|j: int| 0 <= j < l.skip(1).len() implies l.skip(1)[j] == (seq![tail[0]]
                + tail.skip(1))[j] by {}
        }
    }
}

/// Format/parse round trip for text lists: rendering any non-empty list of
/// elements and decoding it again gives the same list.
pub proof fn lemma_text_round_trip(l: Seq<Seq<u8>>)
    requires
        l.len() >= 1,
    ensures
        spec_parse_text(spec_format_text(l)) == Ok::<Seq<Seq<u8>>, ParserError>(l),
{
    lemma_text_loop_format(l, Seq::<Seq<u8>>::empty(), Seq::<u8>::empty());
    assert(Seq::<Seq<u8>>::empty() + seq![Seq::<u8>::empty() + l[0]] + l.skip(1) =~= l) by {
        assert(Seq::<u8>::empty() + l[0] =~= l[0]);
    }
}

// ---------------------------------------------------------------------------
// Whole-string unsigned integers
// ---------------------------------------------------------------------------

/// A whole byte string read as a `u64`: at least one digit, nothing else,
/// and the value in range.
pub open spec fn spec_parse_u64_all(s: Seq<u8>) -> Result<u64, ParserError> {
    let run = digit_run_len(s, 0);
    if run == 0 {
        Err(ParserError { kind: ParserErrorKind::Digits { min_digits: 1, max_digits: 20 } })
    } else if run < s.len() {
        Err(ParserError { kind: ParserErrorKind::TrailingInput })
    } else if digits_val(s) > u64::MAX {
        Err(ParserError { kind: ParserErrorKind::Overflow })
    } else {
        Ok(digits_val(s) as u64)
    }
}

/// Check that `input` is all digits with at least one of them, as
/// `spec_parse_u64_all` demands before it looks at the value.
fn check_all_digits(input: &[u8]) -> (r: Result<(), ParserError>)
    ensures
        r is Ok <==> (digit_run_len(input@, 0) == input@.len() && input@.len() > 0),
        r matches Err(e) ==> e == (if digit_run_len(input@, 0) == 0 {
            ParserError { kind: ParserErrorKind::Digits { min_digits: 1, max_digits: 20 } }
        } else {
            ParserError { kind: ParserErrorKind::TrailingInput }
        }),
        r is Ok ==> forall|j: int| 0 <= j < input@.len() ==> is_digit(#[trigger] input@[j]),
{
    let n = input.len();
    if n == 0 {
        proof {
            lemma_digit_run_len(input@, 0);
        }
        return Err(ParserError::take_while_m_n(1, 20));
    }
    let mut i: usize = 0;
    while i < n
        invariant
            n == input@.len(),
            0 <= i <= n,
            forall|j: int| 0 <= j < i ==> is_digit(#[trigger] input@[j]),
        decreases n - i,
    {
        if !byte_is_digit(input[i]) {
            proof {
                lemma_digit_run_len_from(input@, 0, i as int);
            }
            if i == 0 {
                return Err(ParserError::take_while_m_n(1, 20));
            }
            return Err(ParserError { kind: ParserErrorKind::TrailingInput });
        }
        i += 1;
    }
    proof {
        lemma_digit_run_len_from(input@, 0, n as int);
    }
    Ok(())
}

/// Read a whole byte string as a `u64`.
pub fn parse_u64_all(input: &[u8]) -> (r: Result<u64, ParserError>)
    ensures
        match spec_parse_u64_all(input@) {
            Ok(v) => r matches Ok(w) && w == v,
            Err(e) => r matches Err(x) && x == e,
        },
{
    proof {
        lemma_digit_run_len(input@, 0);
    }
    match check_all_digits(input) {
        Err(e) => {
            return Err(e);
        },
        Ok(()) => {},
    }
    let n = input.len();
    let mut i: usize = 0;
    let mut value: u64 = 0;
    proof {
        assert(input@.take(0) =~= Seq::<u8>::empty());
    }
    while i < n
        invariant
            n == input@.len(),
            0 <= i <= n,
            digit_run_len(input@, 0) == n,
            n > 0,
            forall|j: int| 0 <= j < n ==> is_digit(#[trigger] input@[j]),
            value == digits_val(input@.take(i as int)),
        decreases n - i,
    {
        proof {
            lemma_digits_val_step(input@, i as int);
        }
        let d = (input[i] - 48) as u128;
        let next: u128 = (value as u128) * 10 + d;
        i += 1;
        if next > 0xffff_ffff_ffff_ffff {
            proof {
                assert(digits_val(input@.take(i as int)) > u64::MAX);
                lemma_digits_val_monotone(input@, i as int, n as int);
                assert(input@.take(n as int) =~= input@);
            }
            return Err(ParserError { kind: ParserErrorKind::Overflow });
        }
        value = next as u64;
    }
    proof {
        assert(input@.take(n as int) =~= input@);
    }
    Ok(value)
}

// ---------------------------------------------------------------------------
// PRIORITY
// ---------------------------------------------------------------------------

/// An event priority, 0 (undefined) to 9; larger inputs saturate at 9.
#[derive(Debug, Clone, Copy, PartialEq, Eq, PartialOrd, Ord, Hash, Structural)]
pub struct Priority(pub u8);

/// `PRIORITY:` takes a whole number up to 255, saturated to at most 9.
pub open spec fn spec_parse_priority(s: Seq<u8>) -> Result<Priority, ParserError> {
    match spec_parse_u64_all(s) {
        Err(e) => Err(e),
        Ok(v) => if v > 255 {
            Err(ParserError { kind: ParserErrorKind::Overflow })
        } else if v > 9 {
            Ok(Priority(9))
        } else {
            Ok(Priority(v as u8))
        },
    }
}

impl Default for Priority {
    /// The medium priority.
    fn default() -> (r: Priority)
        ensures
            r.0 == 5,
    {
        Priority(5)
    }
}

impl Priority {
    /// A priority, saturated to at most 9.
    pub fn new(priority: u8) -> (r: Priority)
        ensures
            r.0 == (if priority > 9 {
                9u8
            } else {
                priority
            }),
    {
        if priority > 9 {
            Priority(9)
        } else {
            Priority(priority)
        }
    }

    /// The held level.
    pub fn value(self) -> (r: u8)
        ensures
            r == self.0,
    {
        self.0
    }

    /// Parse a whole byte string as a priority.
    pub fn parse(input: &[u8]) -> (r: Result<Priority, ParserError>)
        ensures
            r == spec_parse_priority(input@),
    {
        match parse_u64_all(input) {
            Err(e) => Err(e),
            Ok(v) => {
                if v > 255 {
                    Err(ParserError { kind: ParserErrorKind::Overflow })
                } else {
                    Ok(Priority::new(v as u8))
                }
            },
        }
    }
}

// ---------------------------------------------------------------------------
// UTC-OFFSET
// ---------------------------------------------------------------------------

/// An offset from UTC.
#[derive(Debug, Clone, Copy, PartialEq, Eq, Structural)]
pub struct UtcOffset {
    pub negative: bool,
    pub hour: u8,
    pub minute: u8,
    pub second: u8,
}

/// UTC-offset grammar: a required sign, 2-digit hour and minute, an
/// optional 2-digit second, and nothing after them.
pub open spec fn spec_parse_utc_offset(s: Seq<u8>) -> Result<UtcOffset, ParserError> {
    if s.len() == 0 || (s[0] != crate::helpers::PLUS && s[0] != HYPHEN) {
        Err(ParserError { kind: ParserErrorKind::MissingLiteral { lit: crate::helpers::PLUS } })
    } else {
        let negative = s[0] == HYPHEN;
        match spec_2digit_int(0, 23, s.skip(1)) {
            Err(e) => Err(e),
            Ok((r1, h)) => match spec_2digit_int(0, 59, r1) {
                Err(e) => Err(e),
                Ok((r2, m)) => {
                    if r2.len() == 0 {
                        Ok(UtcOffset { negative, hour: h as u8, minute: m as u8, second: 0 })
                    } else {
                        match spec_2digit_int(0, 59, r2) {
                            Err(e) => Err(e),
                            Ok((r3, sec)) => {
                                if r3.len() == 0 {
                                    Ok(
                                        UtcOffset {
                                            negative,
                                            hour: h as u8,
                                            minute: m as u8,
                                            second: sec as u8,
                                        },
                                    )
                                } else {
                                    Err(ParserError { kind: ParserErrorKind::TrailingInput })
                                }
                            },
                        }
                    }
                },
            },
        }
    }
}

impl UtcOffset {
    /// Parse a whole byte string as a UTC offset.
    pub fn parse(input: &[u8]) -> (r: Result<UtcOffset, ParserError>)
        ensures
            match spec_parse_utc_offset(input@) {
                Ok(v) => r matches Ok(w) && w == v,
                Err(e) => r matches Err(x) && x == e,
            },
    {
        if input.len() == 0 || (input[0] != crate::helpers::PLUS && input[0] != HYPHEN) {
            return Err(ParserError::tag(crate::helpers::PLUS));
        }
        let negative = input[0] == HYPHEN;
        let s1 = copy_range(input, 1, input.len());
        let (r1, hour) = match time_hour(s1.as_slice()) {
            Ok(v) => v,
            Err(e) => {
                return Err(e);
            },
        };
        let (r2, minute) = match time_minute(r1.as_slice()) {
            Ok(v) => v,
            Err(e) => {
                return Err(e);
            },
        };
        if r2.len() == 0 {
            return Ok(UtcOffset { negative, hour, minute, second: 0 });
        }
        let (r3, second) = match time_second(false, r2.as_slice()) {
            Ok(v) => v,
            Err(e) => {
                return Err(e);
            },
        };
        if r3.len() > 0 {
            return Err(ParserError { kind: ParserErrorKind::TrailingInput });
        }
        Ok(UtcOffset { negative, hour, minute, second })
    }
}

// ---------------------------------------------------------------------------
// Decimal text (latitude/longitude and FLOAT values)
// ---------------------------------------------------------------------------

pub const DOT: u8 = 46;

/// A plain decimal number: an optional sign, digits, and optionally a dot
/// with more digits; nothing else.
pub open spec fn spec_is_decimal(s: Seq<u8>) -> bool {
    let s1 = spec_opt_sign(s).0;
    let run = digit_run_len(s1, 0);
    &&& run >= 1
    &&& (run == s1.len() || (s1[run] == DOT && s1.skip(run + 1).len() >= 1 && digit_run_len(
        s1.skip(run + 1),
        0,
    ) == s1.skip(run + 1).len()))
}

/// Exec check of `spec_is_decimal`.
pub fn is_decimal(input: &[u8]) -> (r: bool)
    ensures
        r == spec_is_decimal(input@),
{
    let (s1, _neg) = opt_sign_is_negative(input);
    let n = s1.len();
    let mut i: usize = 0;
    while i < n && byte_is_digit(s1.as_slice()[i])
        invariant
            n == s1@.len(),
            0 <= i <= n,
            forall|j: int| 0 <= j < i ==> is_digit(#[trigger] s1@[j]),
        decreases n - i,
    {
        i += 1;
    }
    proof {
        lemma_digit_run_len_from(s1@, 0, i as int);
    }
    if i == 0 {
        return false;
    }
    if i == n {
        return true;
    }
    if s1.as_slice()[i] != DOT {
        return false;
    }
    let frac = copy_range(s1.as_slice(), i + 1, n);
    let m = frac.len();
    if m == 0 {
        return false;
    }
    let mut k: usize = 0;
    while k < m && byte_is_digit(frac.as_slice()[k])
        invariant
            m == frac@.len(),
            0 <= k <= m,
            forall|j: int| 0 <= j < k ==> is_digit(#[trigger] frac@[j]),
        decreases m - k,
    {
        k += 1;
    }
    proof {
        lemma_digit_run_len_from(frac@, 0, k as int);
        lemma_digit_run_len(frac@, 0);
        assert(frac@ =~= s1@.skip(i as int + 1));
    }
    k == m
}

/// A geographic position, held as the decimal text of its latitude and
/// longitude (the library validates the decimal shape; turning the text
/// into machine numbers is a caller's concern).
#[derive(Debug, Clone, PartialEq, Eq)]
pub struct GeoLocation {
    pub latitude: Vec<u8>,
    pub longitude: Vec<u8>,
}

impl GeoLocation {
    /// Both coordinates are decimal text.
    pub open spec fn wf(&self) -> bool {
        spec_is_decimal(self.latitude@) && spec_is_decimal(self.longitude@)
    }
}

/// Geo grammar: decimal latitude, `;`, decimal longitude.
pub open spec fn spec_parse_geo(s: Seq<u8>) -> Result<(Seq<u8>, Seq<u8>), ParserError> {
    match crate::helpers::spec_try_split_once(s, SEMI) {
        None => Err(ParserError { kind: ParserErrorKind::MissingLiteral { lit: SEMI } }),
        Some((lat, lon)) => {
            if spec_is_decimal(lat) && spec_is_decimal(lon) {
                Ok((lat, lon))
            } else {
                Err(ParserError { kind: ParserErrorKind::BadDecimal })
            }
        },
    }
}

impl GeoLocation {
    /// Parse `lat;lon` with both halves decimal text.
    pub fn parse(input: &[u8]) -> (r: Result<GeoLocation, ParserError>)
        ensures
            match spec_parse_geo(input@) {
                Ok(p) => r matches Ok(g) && g.latitude@ == p.0 && g.longitude@ == p.1 && g.wf(),
                Err(e) => r matches Err(x) && x == e,
            },
    {
        let parts = match crate::helpers::try_split_once(input, SEMI) {
            Some(p) => p,
            None => {
                return Err(ParserError::tag(SEMI));
            },
        };
        let (lat, lon) = parts;
        if is_decimal(lat.as_slice()) && is_decimal(lon.as_slice()) {
            Ok(GeoLocation { latitude: lat, longitude: lon })
        } else {
            Err(ParserError { kind: ParserErrorKind::BadDecimal })
        }
    }
}

/// A comma-separated list of decimal numbers, kept as their text.
#[derive(Debug, Clone, PartialEq, Eq)]
pub struct Float(pub VecOne<Vec<u8>>);

/// Split on commas and demand each piece be decimal text.
pub open spec fn float_loop(s: Seq<u8>) -> Result<Seq<Seq<u8>>, ParserError>
    decreases s.len(),
    via float_loop_dec
{
    match crate::helpers::find_byte(s, COMMA) {
        None => if spec_is_decimal(s) {
            Ok(seq![s])
        } else {
            Err(ParserError { kind: ParserErrorKind::BadDecimal })
        },
        Some(i) => {
            if !spec_is_decimal(s.take(i)) {
                Err(ParserError { kind: ParserErrorKind::BadDecimal })
            } else {
                match float_loop(s.skip(i + 1)) {
                    Err(e) => Err(e),
                    Ok(l) => Ok(seq![s.take(i)] + l),
                }
            }
        },
    }
}

#[via_fn]
proof fn float_loop_dec(s: Seq<u8>) {
    crate::helpers::lemma_find_byte(s, COMMA);
}

impl Float {
    /// The list elements.
    pub open spec fn texts(&self) -> Seq<Seq<u8>> {
        self.0.elems().map_values(|v: Vec<u8>| v@)
    }

    /// Parse a comma-separated list of decimal numbers.
    pub fn parse(input: &[u8]) -> (r: Result<Float, ParserError>)
        ensures
            match float_loop(input@) {
                Ok(l) => r matches Ok(f) && f.texts() == l,
                Err(e) => r matches Err(x) && x == e,
            },
        decreases input@.len(),
    {
        proof {
            crate::helpers::lemma_find_byte(input@, COMMA);
        }
        match crate::helpers::try_split_once(input, COMMA) {
            None => {
                if is_decimal(input) {
                    let v = copy_range(input, 0, input.len());
                    let ghost vv = v@;
                    let r = Float(VecOne::new(v));
                    proof {
                        assert(vv =~= input@);
                        assert(r.0.elems().len() == 1);
                        assert(r.texts().len() == 1);
                        assert(r.texts()[0] == vv);
                        assert(r.texts() =~= seq![input@]);
                    }
                    Ok(r)
                } else {
                    Err(ParserError { kind: ParserErrorKind::BadDecimal })
                }
            },
            Some((head, tail)) => {
                if !is_decimal(head.as_slice()) {
                    return Err(ParserError { kind: ParserErrorKind::BadDecimal });
                }
                match Float::parse(tail.as_slice()) {
                    Err(e) => Err(e),
                    Ok(f) => {
                        let ghost old_elems = f.texts();
                        let Float(inner) = f;
                        let mut rest: Vec<Vec<u8>> = Vec::new();
                        rest.push(inner.first);
                        let mut more = inner.rest;
                        rest.append(&mut more);
                        let r = Float(VecOne::from_parts(head, rest));
                        proof {
                            assert(r.texts() =~= seq![head@] + old_elems);
                        }
                        Ok(r)
                    },
                }
            },
        }
    }
}

} // verus!
