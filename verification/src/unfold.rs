//! The line unfolder: raw document text becomes logical lines.
//!
//! Physical lines are separated by CRLF; a physical line that begins with a
//! single space continues the previous logical line, with that space
//! dropped. A lone trailing empty segment signals end of input; the very
//! last line may lack its terminator.

use vstd::prelude::*;

use crate::helpers::{copy_range, CR, LF, SPACE};

verus! {

/// Index of the first CRLF pair in `s`, if any.
pub open spec fn find_crlf(s: Seq<u8>) -> Option<int>
    decreases s.len(),
{
    if s.len() < 2 {
        None
    } else if s[0] == CR && s[1] == LF {
        Some(0int)
    } else {
        match find_crlf(s.skip(1)) {
            Some(i) => Some(i + 1),
            None => None,
        }
    }
}

/// `find_crlf` returns the least index of a CRLF pair, or reports that
/// there is none.
pub proof fn lemma_find_crlf(s: Seq<u8>)
    ensures
        match find_crlf(s) {
            Some(i) => 0 <= i && i + 1 < s.len() && s[i] == CR && s[i + 1] == LF && forall|j: int|
                0 <= j < i ==> !(#[trigger] s[j] == CR && s[j + 1] == LF),
            None => forall|j: int| 0 <= j < s.len() - 1 ==> !(#[trigger] s[j] == CR && s[j + 1] == LF),
        },
    decreases s.len(),
{
    if s.len() >= 2 && !(s[0] == CR && s[1] == LF) {
        lemma_find_crlf(s.skip(1));
        match find_crlf(s.skip(1)) {
            Some(i) => {
                assert(s.skip(1)[i] == s[i + 1]);
                assert(s.skip(1)[i + 1] == s[i + 2]);
                assert forall|j: int| 0 <= j < i + 1 implies !(#[trigger] s[j] == CR && s[j + 1] == LF) by {
                    if j > 0 {
                        assert(s.skip(1)[j - 1] == s[j]);
                        assert(s.skip(1)[j] == s[j + 1]);
                    }
                }
            },
            None => {
                assert forall|j: int| 0 <= j < s.len() - 1 implies !(#[trigger] s[j] == CR && s[j + 1]
                    == LF) by {
                    if j > 0 {
                        assert(s.skip(1)[j - 1] == s[j]);
                        assert(s.skip(1)[j] == s[j + 1]);
                    }
                }
            },
        }
    }
}

/// Converse: an index known to be the first CRLF pair is what `find_crlf`
/// returns.
pub proof fn lemma_find_crlf_at(s: Seq<u8>, i: int)
    requires
        0 <= i,
        i + 1 < s.len(),
        s[i] == CR,
        s[i + 1] == LF,
        forall|j: int| 0 <= j < i ==> !(#[trigger] s[j] == CR && s[j + 1] == LF),
    ensures
        find_crlf(s) == Some(i),
    decreases i,
{
    if i > 0 {
        assert(s.skip(1)[i - 1] == s[i]);
        assert(s.skip(1)[i] == s[i + 1]);
        assert forall|j: int| 0 <= j < i - 1 implies !(#[trigger] s.skip(1)[j] == CR && s.skip(1)[j + 1]
            == LF) by {
            assert(s.skip(1)[j] == s[j + 1]);
            assert(s.skip(1)[j + 1] == s[j + 2]);
        }
        lemma_find_crlf_at(s.skip(1), i - 1);
    }
}

/// Converse: if no CRLF pair stands anywhere, `find_crlf` returns `None`.
pub proof fn lemma_find_crlf_none(s: Seq<u8>)
    requires
        forall|j: int| 0 <= j < s.len() - 1 ==> !(#[trigger] s[j] == CR && s[j + 1] == LF),
    ensures
        find_crlf(s) is None,
    decreases s.len(),
{
    if s.len() >= 2 {
        assert forall|j: int| 0 <= j < s.skip(1).len() - 1 implies !(#[trigger] s.skip(1)[j] == CR && s.skip(
            1,
        )[j + 1] == LF) by {
            assert(s.skip(1)[j] == s[j + 1]);
            assert(s.skip(1)[j + 1] == s[j + 2]);
        }
        lemma_find_crlf_none(s.skip(1));
    }
}

/// Exec search for the first CRLF pair.
pub fn find_crlf_idx(s: &[u8]) -> (r: Option<usize>)
    ensures
        match r {
            Some(i) => find_crlf(s@) == Some(i as int),
            None => find_crlf(s@) is None,
        },
{
    let n = s.len();
    if n < 2 {
        proof {
            lemma_find_crlf_none(s@);
        }
        return None;
    }
    let mut i: usize = 0;
    while i < n - 1
        invariant
            n == s@.len(),
            n >= 2,
            0 <= i <= n - 1,
            forall|j: int| 0 <= j < i ==> !(#[trigger] s@[j] == CR && s@[j + 1] == LF),
        decreases n - i,
    {
        if s[i] == CR && s[i + 1] == LF {
            proof {
                lemma_find_crlf_at(s@, i as int);
            }
            return Some(i);
        }
        i += 1;
    }
    proof {
        lemma_find_crlf_none(s@);
    }
    None
}

/// One logical line from the front of a document, with the rest of the
/// document after it. The first physical segment runs to the first CRLF (or
/// to the end); each following segment that begins with a space continues
/// the logical line with that space dropped.
pub open spec fn spec_next_logical(s: Seq<u8>) -> (Seq<u8>, Seq<u8>)
    decreases s.len(),
    via spec_next_logical_dec
{
    match find_crlf(s) {
        None => (s, Seq::<u8>::empty()),
        Some(i) => {
            let first = s.take(i);
            let rest = s.skip(i + 2);
            if rest.len() > 0 && rest[0] == SPACE {
                let (cont, rest2) = spec_next_logical(rest.skip(1));
                (first + cont, rest2)
            } else {
                (first, rest)
            }
        },
    }
}

#[via_fn]
proof fn spec_next_logical_dec(s: Seq<u8>) {
    lemma_find_crlf(s);
}

/// The rest after taking one logical line is strictly shorter.
pub proof fn lemma_next_logical_len(s: Seq<u8>)
    requires
        s.len() > 0,
    ensures
        spec_next_logical(s).1.len() < s.len(),
    decreases s.len(),
{
    lemma_find_crlf(s);
    match find_crlf(s) {
        None => {},
        Some(i) => {
            let rest = s.skip(i + 2);
            if rest.len() > 0 && rest[0] == SPACE {
                if rest.skip(1).len() > 0 {
                    lemma_next_logical_len(rest.skip(1));
                } else {
                    assert(find_crlf(rest.skip(1)) is None);
                    assert(spec_next_logical(rest.skip(1)).1.len() == 0);
                }
            }
        },
    }
}

/// The logical lines of a document: empty input yields nothing, otherwise
/// one logical line is taken and the rest unfolds in turn.
pub open spec fn spec_unfold(s: Seq<u8>) -> Seq<Seq<u8>>
    decreases s.len(),
    via spec_unfold_dec
{
    if s.len() == 0 {
        Seq::<Seq<u8>>::empty()
    } else {
        seq![spec_next_logical(s).0] + spec_unfold(spec_next_logical(s).1)
    }
}

#[via_fn]
proof fn spec_unfold_dec(s: Seq<u8>) {
    if s.len() > 0 {
        lemma_next_logical_len(s);
    }
}

/// Lines are split on CRLF, but a physical line that begins with a space
/// continues the previous logical line.
///
/// This iterator returns unfolded lines.
pub struct LineIter<'a> {
    pub input: &'a [u8],
    pub pos: usize,
}

impl<'a> LineIter<'a> {
    /// The iterator is inside its input.
    pub open spec fn wf(&self) -> bool {
        self.pos <= self.input@.len()
    }

    /// What is left to read.
    pub open spec fn remaining(&self) -> Seq<u8> {
        self.input@.skip(self.pos as int)
    }

    /// Start reading `input` from its beginning.
    pub fn new(input: &'a [u8]) -> (r: LineIter<'a>)
        ensures
            r.wf(),
            r.remaining() == input@,
    {
        let r = LineIter { input, pos: 0 };
        proof {
            assert(r.remaining() =~= input@);
        }
        r
    }

    /// Take one logical line from the front of `s`, returning it and the
    /// offset where the rest of the document starts.
    fn next_logical(s: &[u8]) -> (r: (Vec<u8>, usize))
        ensures
            r.0@ == spec_next_logical(s@).0,
            r.1 <= s@.len(),
            s@.skip(r.1 as int) == spec_next_logical(s@).1,
            s@.len() > 0 ==> r.1 > 0,
        decreases s@.len(),
    {
        let n = s.len();
        match find_crlf_idx(s) {
            None => {
                proof {
                    assert(s@.skip(n as int) =~= Seq::<u8>::empty());
                }
                (copy_range(s, 0, n), n)
            },
            Some(i) => {
                proof {
                    lemma_find_crlf(s@);
                }
                if i + 2 < n && s[i + 2] == SPACE {
                    let sub = vstd::slice::slice_subrange(s, i + 3, n);
                    proof {
                        assert(sub@ =~= s@.skip(i + 2).skip(1));
                    }
                    let (cont, off2) = Self::next_logical(sub);
                    let mut line = copy_range(s, 0, i);
                    let mut cont2 = cont;
                    line.append(&mut cont2);
                    proof {
                        assert(line@ =~= s@.take(i as int) + spec_next_logical(
                            s@.skip(i + 2).skip(1),
                        ).0);
                        assert(s@.skip((i + 3 + off2) as int) =~= sub@.skip(off2 as int));
                    }
                    (line, i + 3 + off2)
                } else {
                    proof {
                        assert(s@.skip(i + 2).len() > 0 ==> s@.skip(i + 2)[0] == s@[i + 2]);
                    }
                    (copy_range(s, 0, i), i + 2)
                }
            },
        }
    }

    /// The next logical line, or `None` at end of input.
    pub fn next(&mut self) -> (r: Option<Vec<u8>>)
        requires
            old(self).wf(),
        ensures
            final(self).wf(),
            final(self).input == old(self).input,
            (match r {
                None => old(self).remaining().len() == 0 && final(self).remaining()
                    == old(self).remaining(),
                Some(l) => old(self).remaining().len() > 0 && l@ == spec_next_logical(
                    old(self).remaining(),
                ).0 && final(self).remaining() == spec_next_logical(old(self).remaining()).1,
            }),
    {
        let rem = vstd::slice::slice_subrange(self.input, self.pos, self.input.len());
        if rem.len() == 0 {
            return None;
        }
        proof {
            assert(rem@ =~= old(self).remaining());
        }
        let (line, off) = Self::next_logical(rem);
        self.pos = self.pos + off;
        proof {
            assert(self.remaining() =~= rem@.skip(off as int));
        }
        Some(line)
    }
}

/// Unfold a whole document into its logical lines.
pub fn unfold_lines(input: &[u8]) -> (r: Vec<Vec<u8>>)
    ensures
        r@.map_values(|l: Vec<u8>| l@) == spec_unfold(input@),
{
    let mut iter = LineIter::new(input);
    let mut out: Vec<Vec<u8>> = Vec::new();
    proof {
        assert(out@.map_values(|l: Vec<u8>| l@) =~= Seq::<Seq<u8>>::empty());
    }
    loop
        invariant
            iter.wf(),
            spec_unfold(input@) == out@.map_values(|l: Vec<u8>| l@) + spec_unfold(
                iter.remaining(),
            ),
        decreases iter.remaining().len(),
    {
        let ghost before = iter.remaining();
        match iter.next() {
            Some(line) => {
                let ghost prev = out@;
                let ghost lv = line@;
                out.push(line);
                proof {
                    lemma_next_logical_len(before);
                    assert(out@.map_values(|l: Vec<u8>| l@) =~= prev.map_values(
                        |l: Vec<u8>| l@,
                    ).push(lv));
                    assert(out@.map_values(|l: Vec<u8>| l@) + spec_unfold(iter.remaining())
                        =~= prev.map_values(|l: Vec<u8>| l@) + spec_unfold(before));
                }
            },
            None => {
                proof {
                    assert(spec_unfold(iter.remaining()) =~= Seq::<Seq<u8>>::empty());
                    assert(out@.map_values(|l: Vec<u8>| l@) + spec_unfold(iter.remaining())
                        =~= out@.map_values(|l: Vec<u8>| l@));
                }
                return out;
            },
        }
    }
}

// ---------------------------------------------------------------------------
// Fold invertibility
// ---------------------------------------------------------------------------

/// No CRLF pair stands anywhere in `s`.
pub open spec fn crlf_free(s: Seq<u8>) -> bool {
    forall|j: int| 0 <= j < s.len() - 1 ==> !(#[trigger] s[j] == CR && s[j + 1] == LF)
}

/// A foldable piece: free of CRLF pairs and not ending in a bare CR that
/// could pair with a following LF.
pub open spec fn piece_ok(p: Seq<u8>) -> bool {
    crlf_free(p) && (p.len() > 0 ==> p[p.len() - 1] != CR)
}

/// One logical line folded across physical lines: the pieces joined by a
/// CRLF and the single continuation space.
pub open spec fn fold_line(ps: Seq<Seq<u8>>) -> Seq<u8>
    decreases ps.len(),
{
    if ps.len() == 0 {
        Seq::<u8>::empty()
    } else if ps.len() == 1 {
        ps[0]
    } else {
        ps[0] + seq![CR, LF, SPACE] + fold_line(ps.skip(1))
    }
}

/// The pieces of one folded line, rejoined without the fold markers.
pub open spec fn concat_pieces(ps: Seq<Seq<u8>>) -> Seq<u8>
    decreases ps.len(),
{
    if ps.len() == 0 {
        Seq::<u8>::empty()
    } else {
        ps[0] + concat_pieces(ps.skip(1))
    }
}

/// A document: folded lines joined by CRLF line terminators.
pub open spec fn fold_document(pss: Seq<Seq<Seq<u8>>>) -> Seq<u8>
    decreases pss.len(),
{
    if pss.len() == 0 {
        Seq::<u8>::empty()
    } else if pss.len() == 1 {
        fold_line(pss[0])
    } else {
        fold_line(pss[0]) + seq![CR, LF] + fold_document(pss.skip(1))
    }
}

/// Every piece of every line is free of CRLF pairs and of a trailing CR
/// that could pair with a following LF, and the first piece of each line is
/// nonempty and does not begin with the continuation space.
pub open spec fn wf_folding(pss: Seq<Seq<Seq<u8>>>) -> bool {
    forall|i: int|
        0 <= i < pss.len() ==> {
            let ps = #[trigger] pss[i];
            &&& ps.len() >= 1
            &&& (forall|j: int| 0 <= j < ps.len() ==> piece_ok(#[trigger] ps[j]))
            &&& ps[0].len() > 0
            &&& ps[0][0] != SPACE
        }
}

/// Taking one logical line from a folded line followed by a terminator and
/// the next document piece recovers the rejoined pieces and that rest.
proof fn lemma_next_logical_folded(ps: Seq<Seq<u8>>, tail: Seq<u8>)
    requires
        ps.len() >= 1,
        forall|j: int| 0 <= j < ps.len() ==> piece_ok(#[trigger] ps[j]),
        tail.len() == 0 || (tail.len() >= 3 && tail[0] == CR && tail[1] == LF && tail[2] != SPACE),
    ensures
        spec_next_logical(fold_line(ps) + tail) == (
            concat_pieces(ps),
            if tail.len() == 0 {
                Seq::<u8>::empty()
            } else {
                tail.skip(2)
            },
        ),
    decreases ps.len(),
{
    let p0 = ps[0];
    let s = fold_line(ps) + tail;
    if ps.len() == 1 {
        assert(s =~= p0 + tail);
        assert(concat_pieces(ps) =~= p0) by {
            assert(ps.skip(1).len() == 0);
            assert(concat_pieces(ps.skip(1)) =~= Seq::<u8>::empty());
        }
        if tail.len() == 0 {
            assert(s =~= p0);
            assert forall|j: int| 0 <= j < s.len() - 1 implies !(#[trigger] s[j] == CR && s[j + 1]
                == LF) by {
                assert(s[j] == p0[j] && s[j + 1] == p0[j + 1]);
            }
            lemma_find_crlf_none(s);
        } else {
            assert(s[p0.len() as int] == CR);
            assert(s[p0.len() as int + 1] == LF);
            assert forall|j: int| 0 <= j < p0.len() implies !(#[trigger] s[j] == CR && s[j + 1]
                == LF) by {
                if j < p0.len() - 1 {
                    assert(s[j] == p0[j] && s[j + 1] == p0[j + 1]);
                } else {
                    assert(s[j] == p0[p0.len() - 1] && s[j] != CR);
                }
            }
            lemma_find_crlf_at(s, p0.len() as int);
            assert(s.take(p0.len() as int) =~= p0);
            assert(s.skip(p0.len() as int + 2) =~= tail.skip(2));
            assert(tail.skip(2)[0] == tail[2]);
        }
    } else {
        let rest_fold = fold_line(ps.skip(1));
        assert(fold_line(ps) == p0 + seq![CR, LF, SPACE] + rest_fold);
        assert(s =~= p0 + (seq![CR, LF, SPACE] + (rest_fold + tail)));
        assert(s[p0.len() as int] == CR);
        assert(s[p0.len() as int + 1] == LF);
        assert forall|j: int| 0 <= j < p0.len() implies !(#[trigger] s[j] == CR && s[j + 1]
            == LF) by {
            if j < p0.len() - 1 {
                assert(s[j] == p0[j] && s[j + 1] == p0[j + 1]);
            } else {
                assert(s[j] == p0[p0.len() - 1] && s[j] != CR);
            }
        }
        lemma_find_crlf_at(s, p0.len() as int);
        assert(s.take(p0.len() as int) =~= p0);
        let rest = s.skip(p0.len() as int + 2);
        assert(rest =~= seq![SPACE] + (rest_fold + tail));
        assert(rest[0] == SPACE);
        assert(rest.skip(1) =~= rest_fold + tail);
        assert forall|j: int| 0 <= j < ps.skip(1).len() implies piece_ok(
            #[trigger] ps.skip(1)[j],
        ) by {
            assert(ps.skip(1)[j] == ps[j + 1]);
        }
        lemma_next_logical_folded(ps.skip(1), tail);
        assert(concat_pieces(ps) =~= p0 + concat_pieces(ps.skip(1)));
        assert(spec_next_logical(s).0 =~= concat_pieces(ps));
    }
}

/// Fold invertibility: for a document written with CRLF terminators and
/// single-space continuations (each piece free of CRLF, no piece ending in
/// a bare CR before a terminator, each logical line starting nonempty and
/// not with a space), unfolding recovers exactly the logical lines whose
/// folding produced the document. The contract of `unfold_lines` carries
/// this to the executable unfolder: on such a document it returns the
/// logical lines themselves.
pub proof fn lemma_unfold_fold(pss: Seq<Seq<Seq<u8>>>)
    requires
        wf_folding(pss),
    ensures
        spec_unfold(fold_document(pss)) == pss.map_values(|ps: Seq<Seq<u8>>| concat_pieces(ps)),
    decreases pss.len(),
{
    if pss.len() == 0 {
        assert(fold_document(pss).len() == 0);
        assert(spec_unfold(fold_document(pss)) =~= pss.map_values(
            |ps: Seq<Seq<u8>>| concat_pieces(ps),
        ));
    } else {
        let ps = pss[0];
        let tail: Seq<u8> = if pss.len() == 1 {
            Seq::<u8>::empty()
        } else {
            seq![CR, LF] + fold_document(pss.skip(1))
        };
        if pss.len() > 1 {
            // the next line's first piece opens the rest of the document
            let nps = pss[1];
            assert(fold_document(pss.skip(1))[0] == nps[0][0]) by {
                assert(pss.skip(1)[0] == nps);
                if pss.skip(1).len() == 1 {
                    assert(fold_document(pss.skip(1)) == fold_line(nps));
                } else {
                    assert(fold_document(pss.skip(1)) =~= fold_line(nps) + seq![CR, LF]
                        + fold_document(pss.skip(1).skip(1)));
                }
                if nps.len() == 1 {
                    assert(fold_line(nps) == nps[0]);
                } else {
                    assert(fold_line(nps) =~= nps[0] + seq![CR, LF, SPACE] + fold_line(
                        nps.skip(1),
                    ));
                }
            }
            assert(tail.len() >= 3 && tail[0] == CR && tail[1] == LF && tail[2] != SPACE) by {
                assert(tail[2] == fold_document(pss.skip(1))[0]);
                assert(nps[0][0] != SPACE);
            }
        }
        assert(fold_document(pss) =~= fold_line(ps) + tail);
        lemma_next_logical_folded(ps, tail);
        let doc = fold_document(pss);
        assert(doc.len() > 0) by {
            assert(ps[0].len() > 0);
            if ps.len() == 1 {
                assert(fold_line(ps) == ps[0]);
            } else {
                assert(fold_line(ps) =~= ps[0] + seq![CR, LF, SPACE] + fold_line(ps.skip(1)));
            }
        }
        if pss.len() == 1 {
            assert(spec_next_logical(doc).1.len() == 0);
            assert(spec_unfold(spec_next_logical(doc).1) =~= Seq::<Seq<u8>>::empty());
            assert(spec_unfold(doc) =~= seq![concat_pieces(ps)]);
            assert(pss.map_values(|q: Seq<Seq<u8>>| concat_pieces(q)) =~= seq![concat_pieces(ps)]);
        } else {
            assert(spec_next_logical(doc).1 =~= fold_document(pss.skip(1)));
            assert forall|i: int| 0 <= i < pss.skip(1).len() implies {
                let q = #[trigger] pss.skip(1)[i];
                &&& q.len() >= 1
                &&& (forall|j: int| 0 <= j < q.len() ==> piece_ok(#[trigger] q[j]))
                &&& q[0].len() > 0
                &&& q[0][0] != SPACE
            } by {
                assert(pss.skip(1)[i] == pss[i + 1]);
            }
            lemma_unfold_fold(pss.skip(1));
            assert(spec_unfold(doc) == seq![concat_pieces(ps)] + spec_unfold(
                fold_document(pss.skip(1)),
            ));
            assert(seq![concat_pieces(ps)] + pss.skip(1).map_values(
                |q: Seq<Seq<u8>>| concat_pieces(q),
            ) =~= pss.map_values(|q: Seq<Seq<u8>>| concat_pieces(q)));
        }
    }
}

} // verus!
