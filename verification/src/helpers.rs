//! Generic helpers for parsing: byte classes, searching, splitting, digit
//! runs and small integers.
//!
//! Every public function is specified against a spec-level model over
//! `Seq<u8>`; the exec code always produces owned buffers.

use vstd::prelude::*;

use crate::errors::{ParserError, ParserErrorKind};

verus! {

pub const CR: u8 = 13;

pub const LF: u8 = 10;

pub const SPACE: u8 = 32;

pub const DQUOTE: u8 = 34;

pub const COMMA: u8 = 44;

pub const HYPHEN: u8 = 45;

pub const PLUS: u8 = 43;

pub const COLON: u8 = 58;

pub const SEMI: u8 = 59;

pub const EQUALS: u8 = 61;

pub const BACKSLASH: u8 = 92;

pub const SLASH: u8 = 47;

// ---------------------------------------------------------------------------
// Byte classes
// ---------------------------------------------------------------------------

/// ASCII decimal digit.
pub open spec fn is_digit(b: u8) -> bool {
    48 <= b && b <= 57
}

/// Numeric value of an ASCII decimal digit.
pub open spec fn digit_val(b: u8) -> int {
    b - 48
}

/// ASCII upper-case letter.
pub open spec fn is_upper(b: u8) -> bool {
    65 <= b && b <= 90
}

/// ASCII letter.
pub open spec fn is_alpha(b: u8) -> bool {
    (65 <= b && b <= 90) || (97 <= b && b <= 122)
}

/// ASCII letter or digit.
pub open spec fn is_alnum(b: u8) -> bool {
    is_alpha(b) || is_digit(b)
}

/// A byte allowed in a name token: `[A-Za-z0-9-]`.
pub open spec fn is_name_byte(b: u8) -> bool {
    is_alnum(b) || b == HYPHEN
}

/// A control byte (the C0 range and DEL).
pub open spec fn is_control(b: u8) -> bool {
    b < 32 || b == 127
}

/// A byte allowed in an unquoted parameter value: no controls and none of
/// the structural delimiters `"` `;` `:` `,`.
pub open spec fn is_safe_byte(b: u8) -> bool {
    !is_control(b) && b != DQUOTE && b != SEMI && b != COLON && b != COMMA
}

/// A byte allowed inside a quoted string: no controls and no `"`.
pub open spec fn is_qsafe_byte(b: u8) -> bool {
    !is_control(b) && b != DQUOTE
}

/// ASCII lower-casing of one byte.
pub open spec fn lower(b: u8) -> u8 {
    if is_upper(b) {
        (b + 32) as u8
    } else {
        b
    }
}

/// ASCII lower-casing of a byte string.
pub open spec fn seq_lower(s: Seq<u8>) -> Seq<u8> {
    s.map_values(|b: u8| lower(b))
}

/// Every byte of `s` is a name byte.
pub open spec fn all_name_bytes(s: Seq<u8>) -> bool {
    forall|i: int| 0 <= i < s.len() ==> is_name_byte(#[trigger] s[i])
}

/// A valid name token: nonempty and drawn from `[A-Za-z0-9-]`.
pub open spec fn valid_name_token(s: Seq<u8>) -> bool {
    s.len() > 0 && all_name_bytes(s)
}

/// Exec check of `is_digit`.
pub fn byte_is_digit(b: u8) -> (r: bool)
    ensures
        r == is_digit(b),
{
    48 <= b && b <= 57
}

/// Exec check of `is_name_byte`.
pub fn byte_is_name(b: u8) -> (r: bool)
    ensures
        r == is_name_byte(b),
{
    (65 <= b && b <= 90) || (97 <= b && b <= 122) || (48 <= b && b <= 57) || b == HYPHEN
}

/// Exec check of `is_alnum`.
pub fn byte_is_alnum(b: u8) -> (r: bool)
    ensures
        r == is_alnum(b),
{
    (65 <= b && b <= 90) || (97 <= b && b <= 122) || (48 <= b && b <= 57)
}

// ---------------------------------------------------------------------------
// Copying and comparing
// ---------------------------------------------------------------------------

/// An owned copy of `s[a..b]`.
pub fn copy_range(s: &[u8], a: usize, b: usize) -> (r: Vec<u8>)
    requires
        a <= b <= s@.len(),
    ensures
        r@ == s@.subrange(a as int, b as int),
{
    let sub = vstd::slice::slice_subrange(s, a, b);
    vstd::slice::slice_to_vec(sub)
}

/// Exact equality of two byte strings.
pub fn eq_bytes(a: &[u8], b: &[u8]) -> (r: bool)
    ensures
        r == (a@ == b@),
{
    if a.len() != b.len() {
        assert(a@ != b@) by {
            assert(a@.len() != b@.len());
        }
        return false;
    }
    let n = a.len();
    let mut i: usize = 0;
    while i < n
        invariant
            n == a@.len() == b@.len(),
            0 <= i <= n,
            forall|j: int| 0 <= j < i ==> a@[j] == b@[j],
        decreases n - i,
    {
        if a[i] != b[i] {
            assert(a@ != b@);
            return false;
        }
        i += 1;
    }
    proof {
        assert(a@ =~= b@);
    }
    true
}

/// Equality of two byte strings up to ASCII case.
pub fn eq_bytes_ci(a: &[u8], b: &[u8]) -> (r: bool)
    ensures
        r == (seq_lower(a@) == seq_lower(b@)),
{
    if a.len() != b.len() {
        assert(seq_lower(a@) != seq_lower(b@)) by {
            assert(seq_lower(a@).len() != seq_lower(b@).len());
        }
        return false;
    }
    let n = a.len();
    let mut i: usize = 0;
    while i < n
        invariant
            n == a@.len() == b@.len(),
            0 <= i <= n,
            forall|j: int| 0 <= j < i ==> seq_lower(a@)[j] == seq_lower(b@)[j],
        decreases n - i,
    {
        let mut x = a[i];
        let mut y = b[i];
        if 65 <= x && x <= 90 {
            x = x + 32;
        }
        if 65 <= y && y <= 90 {
            y = y + 32;
        }
        if x != y {
            assert(seq_lower(a@)[i as int] != seq_lower(b@)[i as int]);
            return false;
        }
        assert(seq_lower(a@)[i as int] == seq_lower(b@)[i as int]);
        i += 1;
    }
    proof {
        assert(seq_lower(a@) =~= seq_lower(b@));
    }
    true
}

/// Whether `s` begins with `prefix`.
pub open spec fn spec_starts_with(s: Seq<u8>, prefix: Seq<u8>) -> bool {
    s.len() >= prefix.len() && s.take(prefix.len() as int) == prefix
}

/// Exec check of `spec_starts_with`.
pub fn starts_with(s: &[u8], prefix: &[u8]) -> (r: bool)
    ensures
        r == spec_starts_with(s@, prefix@),
{
    if s.len() < prefix.len() {
        return false;
    }
    let head = vstd::slice::slice_subrange(s, 0, prefix.len());
    eq_bytes(head, prefix)
}

// ---------------------------------------------------------------------------
// Searching
// ---------------------------------------------------------------------------

/// Index of the first occurrence of `b` in `s`, if any.
pub open spec fn find_byte(s: Seq<u8>, b: u8) -> Option<int>
    decreases s.len(),
{
    if s.len() <= 0 {
        None
    } else if s[0] == b {
        Some(0int)
    } else {
        match find_byte(s.skip(1), b) {
            Some(i) => Some(i + 1),
            None => None,
        }
    }
}

/// `find_byte` returns the least index holding `b`, or reports that none
/// does.
pub proof fn lemma_find_byte(s: Seq<u8>, b: u8)
    ensures
        match find_byte(s, b) {
            Some(i) => 0 <= i < s.len() && s[i] == b && forall|j: int| 0 <= j < i ==> s[j] != b,
            None => forall|j: int| 0 <= j < s.len() ==> s[j] != b,
        },
    decreases s.len(),
{
    if s.len() > 0 && s[0] != b {
        lemma_find_byte(s.skip(1), b);
        match find_byte(s.skip(1), b) {
            Some(i) => {
                assert(s[i + 1] == s.skip(1)[i]);
                assert forall|j: int| 0 <= j < i + 1 implies s[j] != b by {
                    if j > 0 {
                        assert(s[j] == s.skip(1)[j - 1]);
                    }
                }
            },
            None => {
                assert forall|j: int| 0 <= j < s.len() implies s[j] != b by {
                    if j > 0 {
                        assert(s[j] == s.skip(1)[j - 1]);
                    }
                }
            },
        }
    }
}

/// Converse: an index known to be the first occurrence is what `find_byte`
/// returns.
pub proof fn lemma_find_byte_at(s: Seq<u8>, b: u8, i: int)
    requires
        0 <= i < s.len(),
        s[i] == b,
        forall|j: int| 0 <= j < i ==> s[j] != b,
    ensures
        find_byte(s, b) == Some(i),
    decreases i,
{
    if i > 0 {
        assert(s.skip(1)[i - 1] == s[i]);
        assert forall|j: int| 0 <= j < i - 1 implies s.skip(1)[j] != b by {
            assert(s.skip(1)[j] == s[j + 1]);
        }
        lemma_find_byte_at(s.skip(1), b, i - 1);
    }
}

/// Converse: if no index holds `b`, `find_byte` returns `None`.
pub proof fn lemma_find_byte_none(s: Seq<u8>, b: u8)
    requires
        forall|j: int| 0 <= j < s.len() ==> s[j] != b,
    ensures
        find_byte(s, b) is None,
    decreases s.len(),
{
    if s.len() > 0 {
        assert forall|j: int| 0 <= j < s.len() - 1 implies s.skip(1)[j] != b by {
            assert(s.skip(1)[j] == s[j + 1]);
        }
        lemma_find_byte_none(s.skip(1), b);
    }
}

/// Exec search for the first occurrence of `b`.
pub fn find_byte_idx(s: &[u8], b: u8) -> (r: Option<usize>)
    ensures
        match r {
            Some(i) => find_byte(s@, b) == Some(i as int),
            None => find_byte(s@, b) is None,
        },
{
    let n = s.len();
    let mut i: usize = 0;
    while i < n
        invariant
            n == s@.len(),
            0 <= i <= n,
            forall|j: int| 0 <= j < i ==> s@[j] != b,
        decreases n - i,
    {
        if s[i] == b {
            proof {
                lemma_find_byte_at(s@, b, i as int);
            }
            return Some(i);
        }
        i += 1;
    }
    proof {
        lemma_find_byte_none(s@, b);
    }
    None
}

// ---------------------------------------------------------------------------
// Splitting
// ---------------------------------------------------------------------------

/// Split on the first occurrence of `d`; everything lands in the first part
/// when `d` is absent.
pub open spec fn spec_split_once(s: Seq<u8>, d: u8) -> (Seq<u8>, Seq<u8>) {
    match find_byte(s, d) {
        Some(i) => (s.take(i), s.skip(i + 1)),
        None => (s, Seq::<u8>::empty()),
    }
}

/// Split on the first occurrence of `d`, or report that `d` is absent.
pub open spec fn spec_try_split_once(s: Seq<u8>, d: u8) -> Option<(Seq<u8>, Seq<u8>)> {
    match find_byte(s, d) {
        Some(i) => Some((s.take(i), s.skip(i + 1))),
        None => None,
    }
}

/// Split `input` on the first `delim`, or return everything in the first
/// part if it is absent.
pub fn split_once(input: &[u8], delim: u8) -> (r: (Vec<u8>, Vec<u8>))
    ensures
        r.0@ == spec_split_once(input@, delim).0,
        r.1@ == spec_split_once(input@, delim).1,
{
    proof {
        lemma_find_byte(input@, delim);
    }
    let n = input.len();
    match find_byte_idx(input, delim) {
        Some(i) => (copy_range(input, 0, i), copy_range(input, i + 1, n)),
        None => (copy_range(input, 0, n), Vec::new()),
    }
}

/// Split `input` on the first `delim`, or return `None` if it is absent.
pub fn try_split_once(input: &[u8], delim: u8) -> (r: Option<(Vec<u8>, Vec<u8>)>)
    ensures
        match spec_try_split_once(input@, delim) {
            Some(p) => r matches Some(q) && q.0@ == p.0 && q.1@ == p.1,
            None => r is None,
        },
{
    proof {
        lemma_find_byte(input@, delim);
    }
    let n = input.len();
    match find_byte_idx(input, delim) {
        Some(i) => Some((copy_range(input, 0, i), copy_range(input, i + 1, n))),
        None => None,
    }
}

/// Index of the first occurrence of `d` at or after `i` that stands outside
/// double quotes, tracking the quote parity in `inside`.
pub open spec fn find_split_oq(s: Seq<u8>, d: u8, i: int, inside: bool) -> Option<int>
    decreases s.len() - i,
{
    if i < 0 || i >= s.len() {
        None
    } else if s[i] == DQUOTE {
        find_split_oq(s, d, i + 1, !inside)
    } else if s[i] == d && !inside {
        Some(i)
    } else {
        find_split_oq(s, d, i + 1, inside)
    }
}

/// A found split point lies inside the string, at or after where the
/// search started.
pub proof fn lemma_find_split_oq_bounds(s: Seq<u8>, d: u8, i: int, inside: bool)
    ensures
        (find_split_oq(s, d, i, inside) matches Some(j) ==> i <= j < s.len() && s[j] == d),
    decreases s.len() - i,
{
    if 0 <= i < s.len() {
        if s[i] == DQUOTE {
            lemma_find_split_oq_bounds(s, d, i + 1, !inside);
        } else if !(s[i] == d && !inside) {
            lemma_find_split_oq_bounds(s, d, i + 1, inside);
        }
    }
}

/// Split on the first occurrence of `d` outside double quotes; everything
/// lands in the first part when there is none.
pub open spec fn spec_split_once_outside_quotes(s: Seq<u8>, d: u8) -> (Seq<u8>, Seq<u8>) {
    match find_split_oq(s, d, 0, false) {
        Some(i) => (s.take(i), s.skip(i + 1)),
        None => (s, Seq::<u8>::empty()),
    }
}

/// Split on `delim`, but never inside a quoted span: a `"` toggles an
/// "inside quote" flag and a delimiter seen while the flag is set is not a
/// split point. Everything lands in the first part when there is no split
/// point.
pub fn split_once_outside_quotes(input: &[u8], delim: u8) -> (r: (Vec<u8>, Vec<u8>))
    ensures
        r.0@ == spec_split_once_outside_quotes(input@, delim).0,
        r.1@ == spec_split_once_outside_quotes(input@, delim).1,
{
    let n = input.len();
    let mut i: usize = 0;
    let mut inside: bool = false;
    while i < n
        invariant
            n == input@.len(),
            0 <= i <= n,
            find_split_oq(input@, delim, 0, false) == find_split_oq(input@, delim, i as int, inside),
        decreases n - i,
    {
        let b = input[i];
        if b == DQUOTE {
            inside = !inside;
        } else if b == delim && !inside {
            return (copy_range(input, 0, i), copy_range(input, i + 1, n));
        }
        i += 1;
    }
    (copy_range(input, 0, n), Vec::new())
}

// ---------------------------------------------------------------------------
// Digit runs and integer values
// ---------------------------------------------------------------------------

/// Number of consecutive ASCII digits starting at index `i`.
pub open spec fn digit_run_len(s: Seq<u8>, i: int) -> int
    decreases s.len() - i,
{
    if i < 0 || i >= s.len() || !is_digit(s[i]) {
        0
    } else {
        1 + digit_run_len(s, i + 1)
    }
}

/// A stretch of digits from `a` to `i` pushes the run length at `a` to at
/// least `i - a`, and pins it exactly when a non-digit (or the end) follows.
pub proof fn lemma_digit_run_len_from(s: Seq<u8>, a: int, i: int)
    requires
        0 <= a <= i <= s.len(),
        forall|j: int| a <= j < i ==> is_digit(#[trigger] s[j]),
    ensures
        digit_run_len(s, a) >= i - a,
        (i == s.len() || !is_digit(s[i])) ==> digit_run_len(s, a) == i - a,
    decreases i - a,
{
    if a < i {
        lemma_digit_run_len_from(s, a + 1, i);
    } else {
        lemma_digit_run_len(s, a);
    }
}

/// Bounds and characterization of `digit_run_len`.
pub proof fn lemma_digit_run_len(s: Seq<u8>, i: int)
    requires
        0 <= i <= s.len(),
    ensures
        0 <= digit_run_len(s, i) <= s.len() - i,
        forall|j: int| i <= j < i + digit_run_len(s, i) ==> is_digit(#[trigger] s[j]),
        i + digit_run_len(s, i) < s.len() ==> !is_digit(s[i + digit_run_len(s, i)]),
    decreases s.len() - i,
{
    if i < s.len() && is_digit(s[i]) {
        lemma_digit_run_len(s, i + 1);
    }
}

/// Numeric value of a string of ASCII digits, most significant first.
pub open spec fn digits_val(s: Seq<u8>) -> int
    decreases s.len(),
{
    if s.len() == 0 {
        0
    } else {
        digits_val(s.drop_last()) * 10 + digit_val(s.last())
    }
}

/// Powers of ten.
pub open spec fn pow10(n: int) -> int
    decreases n,
{
    if n <= 0 {
        1
    } else {
        10 * pow10(n - 1)
    }
}

/// A digit string's value is nonnegative and below `pow10` of its length.
pub proof fn lemma_digits_val_bound(s: Seq<u8>)
    requires
        forall|i: int| 0 <= i < s.len() ==> is_digit(#[trigger] s[i]),
    ensures
        0 <= digits_val(s) < pow10(s.len() as int),
    decreases s.len(),
{
    if s.len() > 0 {
        lemma_digits_val_bound(s.drop_last());
    }
}

/// Appending one digit multiplies the value by ten and adds the digit.
pub proof fn lemma_digits_val_step(s: Seq<u8>, k: int)
    requires
        0 <= k < s.len(),
    ensures
        digits_val(s.take(k + 1)) == digits_val(s.take(k)) * 10 + digit_val(s[k]),
    decreases s.len(),
{
    assert(s.take(k + 1).drop_last() =~= s.take(k));
    assert(s.take(k + 1).last() == s[k]);
}

/// The value of a digit string only grows as digits are appended.
pub proof fn lemma_digits_val_monotone(s: Seq<u8>, k: int, n: int)
    requires
        0 <= k <= n <= s.len(),
        forall|i: int| 0 <= i < s.len() ==> is_digit(#[trigger] s[i]),
    ensures
        digits_val(s.take(k)) <= digits_val(s.take(n)),
    decreases n - k,
{
    if k < n {
        lemma_digits_val_monotone(s, k, n - 1);
        lemma_digits_val_step(s, n - 1);
        assert forall|i: int| 0 <= i < s.take(n - 1).len() implies is_digit(
            #[trigger] s.take(n - 1)[i],
        ) by {}
        lemma_digits_val_bound(s.take(n - 1));
    }
}

/// Take at least `min` and at most `max` leading ASCII digits; fewer than
/// `min` available is an error carrying the demanded counts.
pub open spec fn spec_take_while_m_n(min: int, max: int, s: Seq<u8>) -> Result<
    (Seq<u8>, Seq<u8>),
    ParserError,
> {
    let run = digit_run_len(s, 0);
    let n = if run > max {
        max
    } else {
        run
    };
    if run < min {
        Err(ParserError { kind: ParserErrorKind::Digits { min_digits: min as u32, max_digits: max as u32 } })
    } else {
        Ok((s.skip(n), s.take(n)))
    }
}

/// Take at least `min` and at most `max` leading ASCII digits from `input`.
/// Returns the rest and the digits taken.
pub fn take_while_m_n(min: usize, max: usize, input: &[u8]) -> (r: Result<
    (Vec<u8>, Vec<u8>),
    ParserError,
>)
    requires
        0 < min <= max <= 0xffff_ffff,
    ensures
        match spec_take_while_m_n(min as int, max as int, input@) {
            Ok(p) => r matches Ok(q) && q.0@ == p.0 && q.1@ == p.1,
            Err(e) => r matches Err(x) && x == e,
        },
{
    let n = input.len();
    let mut i: usize = 0;
    while i < n && i < max && byte_is_digit(input[i])
        invariant
            n == input@.len(),
            0 <= i <= n,
            i <= max,
            forall|j: int| 0 <= j < i ==> is_digit(#[trigger] input@[j]),
        decreases n - i,
    {
        i += 1;
    }
    proof {
        lemma_digit_run_len_from(input@, 0, i as int);
        lemma_digit_run_len(input@, 0);
    }
    if i < min {
        return Err(ParserError::take_while_m_n(min as u32, max as u32));
    }
    Ok((copy_range(input, i, n), copy_range(input, 0, i)))
}

/// Value of a slice of ASCII digits (at most nine of them, so the value
/// fits comfortably).
pub fn digits_to_u32(d: &[u8]) -> (r: u32)
    requires
        forall|i: int| 0 <= i < d@.len() ==> is_digit(#[trigger] d@[i]),
        d@.len() <= 9,
    ensures
        r == digits_val(d@),
{
    let n = d.len();
    let mut i: usize = 0;
    let mut value: u32 = 0;
    proof {
        assert(d@.take(0) =~= Seq::<u8>::empty());
    }
    while i < n
        invariant
            n == d@.len() <= 9,
            0 <= i <= n,
            forall|j: int| 0 <= j < n ==> is_digit(#[trigger] d@[j]),
            value == digits_val(d@.take(i as int)),
            value < pow10(i as int),
        decreases n - i,
    {
        proof {
            lemma_digits_val_step(d@, i as int);
            assert(pow10(8) == 100000000) by {
                reveal_with_fuel(pow10, 10);
            }
            lemma_pow10_monotone(i as int, 8);
            assert(is_digit(d@[i as int]));
        }
        value = value * 10 + (d[i] - 48) as u32;
        i += 1;
        proof {
            lemma_digits_val_bound(d@.take(i as int));
        }
    }
    proof {
        assert(d@.take(n as int) =~= d@);
    }
    value
}

/// `pow10` is positive and monotone.
pub proof fn lemma_pow10_monotone(a: int, b: int)
    requires
        a <= b,
    ensures
        0 < pow10(a) <= pow10(b),
    decreases b - a,
{
    if a < b {
        lemma_pow10_monotone(a, b - 1);
    } else {
        lemma_pow10_pos(a);
    }
}

/// `pow10` is positive.
pub proof fn lemma_pow10_pos(a: int)
    ensures
        pow10(a) > 0,
    decreases a,
{
    if a > 0 {
        lemma_pow10_pos(a - 1);
    }
}

/// Read a leading run of digits as a `u32`: `Ok(None)` when there is no
/// digit, an overflow error when the run's value does not fit.
pub open spec fn spec_parse_u32(s: Seq<u8>) -> Result<Option<(Seq<u8>, u32)>, ParserError> {
    let run = digit_run_len(s, 0);
    if run == 0 {
        Ok(None)
    } else if digits_val(s.take(run)) > u32::MAX {
        Err(ParserError { kind: ParserErrorKind::Overflow })
    } else {
        Ok(Some((s.skip(run), digits_val(s.take(run)) as u32)))
    }
}

/// Read a leading run of digits as a `u32`.
pub fn parse_u32(input: &[u8]) -> (r: Result<Option<(Vec<u8>, u32)>, ParserError>)
    ensures
        match spec_parse_u32(input@) {
            Ok(Some(p)) => r matches Ok(o) && o matches Some(q) && q.0@ == p.0 && q.1 == p.1,
            Ok(None) => r matches Ok(o) && o is None,
            Err(e) => r matches Err(x) && x == e,
        },
{
    let n = input.len();
    let ghost run = digit_run_len(input@, 0);
    proof {
        lemma_digit_run_len(input@, 0);
    }
    if n == 0 || !byte_is_digit(input[0]) {
        return Ok(None);
    }
    let mut i: usize = 0;
    let mut value: u64 = 0;
    proof {
        assert(input@.take(0) =~= Seq::<u8>::empty());
    }
    while i < n && byte_is_digit(input[i])
        invariant
            n == input@.len(),
            0 <= i <= n,
            run == digit_run_len(input@, 0),
            forall|j: int| 0 <= j < run ==> is_digit(#[trigger] input@[j]),
            run <= n,
            i <= run,
            i < run ==> is_digit(input@[i as int]),
            run < n ==> !is_digit(input@[run]),
            value == digits_val(input@.take(i as int)),
            value <= u32::MAX,
        decreases n - i,
    {
        proof {
            lemma_digits_val_step(input@, i as int);
        }
        let d = (input[i] - 48) as u64;
        let next = value * 10 + d;
        i += 1;
        if next > 0xffff_ffff {
            proof {
                assert(digits_val(input@.take(i as int)) > u32::MAX);
                assert forall|j: int| 0 <= j < input@.take(run).len() implies is_digit(
                    #[trigger] input@.take(run)[j],
                ) by {}
                lemma_digits_val_monotone(input@.take(run), i as int, run);
                assert(input@.take(run).take(i as int) =~= input@.take(i as int));
                assert(input@.take(run).take(run) =~= input@.take(run));
            }
            return Err(ParserError { kind: ParserErrorKind::Overflow });
        }
        value = next;
    }
    proof {
        assert(i == run);
    }
    Ok(Some((copy_range(input, i, n), value as u32)))
}

// ---------------------------------------------------------------------------
// Literals, prefixes, character checks
// ---------------------------------------------------------------------------

/// Expect the literal byte `lit` at the front; the rest follows it.
pub open spec fn spec_tag(lit: u8, s: Seq<u8>) -> Result<Seq<u8>, ParserError> {
    if s.len() > 0 && s[0] == lit {
        Ok(s.skip(1))
    } else {
        Err(ParserError { kind: ParserErrorKind::MissingLiteral { lit } })
    }
}

/// Expect the literal byte `lit` at the front of `input`.
pub fn tag(lit: u8, input: &[u8]) -> (r: Result<&[u8], ParserError>)
    ensures
        match spec_tag(lit, input@) {
            Ok(rest) => r matches Ok(v) && v@ == rest,
            Err(e) => r matches Err(x) && x == e,
        },
{
    if input.len() > 0 && input[0] == lit {
        Ok(vstd::slice::slice_subrange(input, 1, input.len()))
    } else {
        Err(ParserError::tag(lit))
    }
}

/// Strip `prefix` from the front of `input`, or return `None` if it does
/// not begin with it.
pub fn strip_prefix<'a>(input: &'a [u8], prefix: &[u8]) -> (r: Option<&'a [u8]>)
    ensures
        spec_starts_with(input@, prefix@) ==> (r matches Some(v) && v@ == input@.skip(
            prefix@.len() as int,
        )),
        !spec_starts_with(input@, prefix@) ==> r is None,
{
    if starts_with(input, prefix) {
        Some(vstd::slice::slice_subrange(input, prefix.len(), input.len()))
    } else {
        None
    }
}

/// Every byte of `s` may stand in an unquoted parameter value.
pub open spec fn all_safe(s: Seq<u8>) -> bool {
    forall|i: int| 0 <= i < s.len() ==> is_safe_byte(#[trigger] s[i])
}

/// Every byte of `s` may stand inside a quoted string.
pub open spec fn all_qsafe(s: Seq<u8>) -> bool {
    forall|i: int| 0 <= i < s.len() ==> is_qsafe_byte(#[trigger] s[i])
}

/// Reject a byte that may not stand in an unquoted parameter value.
pub fn safe_char(input: u8) -> (r: Result<(), ParserError>)
    ensures
        r == (if is_safe_byte(input) {
            Ok::<(), ParserError>(())
        } else {
            Err::<(), ParserError>(ParserError { kind: ParserErrorKind::InvalidParamValue })
        }),
{
    if input < 32 || input == 127 || input == DQUOTE || input == SEMI || input == COLON || input
        == COMMA {
        Err(ParserError { kind: ParserErrorKind::InvalidParamValue })
    } else {
        Ok(())
    }
}

/// Reject a byte that may not stand inside a quoted string.
pub fn qsafe_char(input: u8) -> (r: Result<(), ParserError>)
    ensures
        r == (if is_qsafe_byte(input) {
            Ok::<(), ParserError>(())
        } else {
            Err::<(), ParserError>(ParserError { kind: ParserErrorKind::InvalidParamValue })
        }),
{
    if input < 32 || input == 127 || input == DQUOTE {
        Err(ParserError { kind: ParserErrorKind::InvalidParamValue })
    } else {
        Ok(())
    }
}

/// Check that every byte of `input` may stand in an unquoted parameter
/// value.
pub fn check_param_text(input: &[u8]) -> (r: Result<(), ParserError>)
    ensures
        r == (if all_safe(input@) {
            Ok::<(), ParserError>(())
        } else {
            Err::<(), ParserError>(ParserError { kind: ParserErrorKind::InvalidParamValue })
        }),
{
    let n = input.len();
    let mut i: usize = 0;
    while i < n
        invariant
            n == input@.len(),
            0 <= i <= n,
            forall|j: int| 0 <= j < i ==> is_safe_byte(#[trigger] input@[j]),
        decreases n - i,
    {
        if safe_char(input[i]).is_err() {
            return Err(ParserError { kind: ParserErrorKind::InvalidParamValue });
        }
        i += 1;
    }
    Ok(())
}

/// Check `input` against the name-token charset `[A-Za-z0-9-]+`.
pub fn check_iana_token(input: &[u8]) -> (r: Result<(), ParserError>)
    ensures
        r == (if valid_name_token(input@) {
            Ok::<(), ParserError>(())
        } else {
            Err::<(), ParserError>(ParserError { kind: ParserErrorKind::InvalidName })
        }),
{
    let n = input.len();
    if n == 0 {
        return Err(ParserError { kind: ParserErrorKind::InvalidName });
    }
    let mut i: usize = 0;
    while i < n
        invariant
            n == input@.len(),
            0 <= i <= n,
            forall|j: int| 0 <= j < i ==> is_name_byte(#[trigger] input@[j]),
        decreases n - i,
    {
        if !byte_is_name(input[i]) {
            return Err(ParserError { kind: ParserErrorKind::InvalidName });
        }
        i += 1;
    }
    Ok(())
}

/// `input` without its enclosing double quotes, after checking that it has
/// them and that the interior is quote-safe.
pub open spec fn spec_quoted_string(s: Seq<u8>) -> Result<Seq<u8>, ParserError> {
    if s.len() < 2 || s[0] != DQUOTE || s[s.len() - 1] != DQUOTE {
        Err(ParserError { kind: ParserErrorKind::InvalidParamValue })
    } else if !all_qsafe(s.subrange(1, s.len() - 1)) {
        Err(ParserError { kind: ParserErrorKind::InvalidParamValue })
    } else {
        Ok(s.subrange(1, s.len() - 1))
    }
}

/// Strip the start and end quotes from a quoted string, rejecting controls
/// and embedded quotes inside.
pub fn quoted_string(input: &[u8]) -> (r: Result<Vec<u8>, ParserError>)
    ensures
        match spec_quoted_string(input@) {
            Ok(v) => r matches Ok(w) && w@ == v,
            Err(e) => r matches Err(x) && x == e,
        },
{
    let n = input.len();
    if n < 2 || input[0] != DQUOTE || input[n - 1] != DQUOTE {
        return Err(ParserError { kind: ParserErrorKind::InvalidParamValue });
    }
    let mut i: usize = 1;
    while i < n - 1
        invariant
            n == input@.len(),
            n >= 2,
            1 <= i <= n - 1,
            forall|j: int| 1 <= j < i ==> is_qsafe_byte(#[trigger] input@[j]),
        decreases n - i,
    {
        if qsafe_char(input[i]).is_err() {
            assert(!all_qsafe(input@.subrange(1, n - 1))) by {
                assert(input@.subrange(1, n - 1)[i - 1] == input@[i as int]);
            }
            return Err(ParserError { kind: ParserErrorKind::InvalidParamValue });
        }
        i += 1;
    }
    proof {
        assert forall|j: int| 0 <= j < input@.subrange(1, n - 1).len() implies is_qsafe_byte(
            #[trigger] input@.subrange(1, n - 1)[j],
        ) by {
            assert(input@.subrange(1, n - 1)[j] == input@[j + 1]);
        }
    }
    Ok(copy_range(input, 1, n - 1))
}

/// A parameter value: a quoted string is stripped of its quotes, an
/// unquoted one is checked for safety and returned as it stands.
pub open spec fn spec_param_value(s: Seq<u8>) -> Result<Seq<u8>, ParserError> {
    if s.len() > 0 && s[0] == DQUOTE {
        spec_quoted_string(s)
    } else if all_safe(s) {
        Ok(s)
    } else {
        Err(ParserError { kind: ParserErrorKind::InvalidParamValue })
    }
}

/// Extract one parameter value, quoted or plain.
pub fn param_value(input: &[u8]) -> (r: Result<Vec<u8>, ParserError>)
    ensures
        match spec_param_value(input@) {
            Ok(v) => r matches Ok(w) && w@ == v,
            Err(e) => r matches Err(x) && x == e,
        },
{
    if input.len() > 0 && input[0] == DQUOTE {
        quoted_string(input)
    } else {
        match check_param_text(input) {
            Ok(()) => Ok(copy_range(input, 0, input.len())),
            Err(e) => Err(e),
        }
    }
}

/// Remove the first `count` bytes of `input` (all of it when it is
/// shorter).
pub fn pop_front_bytes(input: &mut Vec<u8>, count: usize)
    ensures
        final(input)@ == (if count <= old(input)@.len() {
            old(input)@.skip(count as int)
        } else {
            Seq::<u8>::empty()
        }),
{
    if count >= input.len() {
        input.clear();
        proof {
            if count <= old(input)@.len() {
                assert(old(input)@.skip(count as int) =~= Seq::<u8>::empty());
            }
        }
    } else {
        let rest = copy_range(input.as_slice(), count, input.len());
        *input = rest;
        proof {
            assert(old(input)@.subrange(count as int, old(input)@.len() as int) =~= old(
                input,
            )@.skip(count as int));
        }
    }
}

} // verus!
