//! The per-line parameter map: a multimap from parameter name to a
//! non-empty ordered value list, keyed separately for registered and
//! extension names. Entries are consumed ("taken") as a property handler
//! recognizes them.

use vstd::prelude::*;

use crate::errors::{ParserError, ParserErrorKind};
use crate::helpers::{
    eq_bytes, param_value, spec_param_value, spec_split_once_outside_quotes, spec_try_split_once,
    split_once_outside_quotes, try_split_once, COMMA, EQUALS,
};
use crate::name::{Name, NameV, XName, XNameV};
use crate::vec_one::VecOne;

verus! {

/// The elements of a value list, as byte strings.
pub open spec fn vals_view(l: VecOne<Vec<u8>>) -> Seq<Seq<u8>> {
    l.elems().map_values(|v: Vec<u8>| v@)
}

/// Index of the first entry with key `k` in an association list.
pub open spec fn assoc_find<K, V>(m: Seq<(K, V)>, k: K) -> Option<int>
    decreases m.len(),
{
    if m.len() == 0 {
        None
    } else if m[0].0 == k {
        Some(0int)
    } else {
        match assoc_find(m.skip(1), k) {
            Some(i) => Some(i + 1),
            None => None,
        }
    }
}

/// `assoc_find` returns the least index with the key, or reports that no
/// entry has it.
pub proof fn lemma_assoc_find<K, V>(m: Seq<(K, V)>, k: K)
    ensures
        match assoc_find(m, k) {
            Some(i) => 0 <= i < m.len() && m[i].0 == k && forall|j: int|
                0 <= j < i ==> (#[trigger] m[j]).0 != k,
            None => forall|j: int| 0 <= j < m.len() ==> (#[trigger] m[j]).0 != k,
        },
    decreases m.len(),
{
    if m.len() > 0 && m[0].0 != k {
        lemma_assoc_find(m.skip(1), k);
        match assoc_find(m.skip(1), k) {
            Some(i) => {
                assert(m.skip(1)[i] == m[i + 1]);
                assert forall|j: int| 0 <= j < i + 1 implies (#[trigger] m[j]).0 != k by {
                    if j > 0 {
                        assert(m[j] == m.skip(1)[j - 1]);
                    }
                }
            },
            None => {
                assert forall|j: int| 0 <= j < m.len() implies (#[trigger] m[j]).0 != k by {
                    if j > 0 {
                        assert(m[j] == m.skip(1)[j - 1]);
                    }
                }
            },
        }
    }
}

/// Converse: an index known to be the first with the key is the one found.
pub proof fn lemma_assoc_find_at<K, V>(m: Seq<(K, V)>, k: K, i: int)
    requires
        0 <= i < m.len(),
        m[i].0 == k,
        forall|j: int| 0 <= j < i ==> (#[trigger] m[j]).0 != k,
    ensures
        assoc_find(m, k) == Some(i),
    decreases i,
{
    if i > 0 {
        assert(m.skip(1)[i - 1] == m[i]);
        assert forall|j: int| 0 <= j < i - 1 implies (#[trigger] m.skip(1)[j]).0 != k by {
            assert(m.skip(1)[j] == m[j + 1]);
        }
        lemma_assoc_find_at(m.skip(1), k, i - 1);
    }
}

/// Converse: if no entry has the key, nothing is found.
pub proof fn lemma_assoc_find_none<K, V>(m: Seq<(K, V)>, k: K)
    requires
        forall|j: int| 0 <= j < m.len() ==> (#[trigger] m[j]).0 != k,
    ensures
        assoc_find(m, k) is None,
    decreases m.len(),
{
    if m.len() > 0 {
        assert forall|j: int| 0 <= j < m.skip(1).len() implies (#[trigger] m.skip(1)[j]).0 != k by {
            assert(m.skip(1)[j] == m[j + 1]);
        }
        lemma_assoc_find_none(m.skip(1), k);
    }
}

/// Add values under a key: appended to the entry's list when the key is
/// present, a new entry at the back otherwise; no values, no change.
pub open spec fn spec_map_add<K>(
    m: Seq<(K, Seq<Seq<u8>>)>,
    k: K,
    vs: Seq<Seq<u8>>,
) -> Seq<(K, Seq<Seq<u8>>)> {
    if vs.len() == 0 {
        m
    } else {
        match assoc_find(m, k) {
            Some(i) => m.update(i, (k, m[i].1 + vs)),
            None => m.push((k, vs)),
        }
    }
}

/// Take a key's entry out: the map without it, and its value list (or
/// nothing, and the map unchanged).
pub open spec fn spec_map_take<K>(m: Seq<(K, Seq<Seq<u8>>)>, k: K) -> (
    Seq<(K, Seq<Seq<u8>>)>,
    Option<Seq<Seq<u8>>>,
) {
    match assoc_find(m, k) {
        Some(i) => (m.remove(i), Some(m[i].1)),
        None => (m, None),
    }
}

/// Exact equality of two extension names.
pub fn xname_eq(a: &XName, b: &XName) -> (r: bool)
    ensures
        r == (a@ == b@),
{
    let vendor_ok = match (&a.vendor, &b.vendor) {
        (Some(x), Some(y)) => {
            let e = x[0] == y[0] && x[1] == y[1] && x[2] == y[2];
            proof {
                if e {
                    assert(x@ =~= y@);
                } else {
                    assert(x@ != y@);
                }
            }
            e
        },
        (None, None) => true,
        _ => false,
    };
    if vendor_ok && eq_bytes(a.value.as_slice(), b.value.as_slice()) {
        proof {
            assert(a@ =~= b@);
        }
        true
    } else {
        false
    }
}

/// A per-line multimap from parameter name to its non-empty value list,
/// partitioned into registered and extension keys, insertion order kept.
#[derive(Debug, Clone, PartialEq, Eq)]
pub struct ParamMap {
    pub iana: Vec<(Vec<u8>, VecOne<Vec<u8>>)>,
    pub extend: Vec<(XName, VecOne<Vec<u8>>)>,
}

impl ParamMap {
    /// The registered-name entries.
    pub open spec fn iana_view(&self) -> Seq<(Seq<u8>, Seq<Seq<u8>>)> {
        self.iana@.map_values(|p: (Vec<u8>, VecOne<Vec<u8>>)| (p.0@, vals_view(p.1)))
    }

    /// The extension-name entries.
    pub open spec fn extend_view(&self) -> Seq<(XNameV, Seq<Seq<u8>>)> {
        self.extend@.map_values(|p: (XName, VecOne<Vec<u8>>)| (p.0@, vals_view(p.1)))
    }

    /// An empty map.
    pub fn new() -> (r: ParamMap)
        ensures
            r.iana_view() == Seq::<(Seq<u8>, Seq<Seq<u8>>)>::empty(),
            r.extend_view() == Seq::<(XNameV, Seq<Seq<u8>>)>::empty(),
    {
        let r = ParamMap { iana: Vec::new(), extend: Vec::new() };
        proof {
            assert(r.iana_view() =~= Seq::<(Seq<u8>, Seq<Seq<u8>>)>::empty());
            assert(r.extend_view() =~= Seq::<(XNameV, Seq<Seq<u8>>)>::empty());
        }
        r
    }

    /// The registered-name entries, in insertion order.
    pub fn iana(&self) -> (r: &Vec<(Vec<u8>, VecOne<Vec<u8>>)>)
        ensures
            r == &self.iana,
    {
        &self.iana
    }

    /// Index of the entry with a registered key.
    fn find_iana(&self, key: &[u8]) -> (r: Option<usize>)
        ensures
            match r {
                Some(i) => assoc_find(self.iana_view(), key@) == Some(i as int),
                None => assoc_find(self.iana_view(), key@) is None,
            },
    {
        let n = self.iana.len();
        let mut i: usize = 0;
        proof {
            assert(self.iana_view().len() == n);
        }
        while i < n
            invariant
                n == self.iana@.len(),
                self.iana_view().len() == n,
                0 <= i <= n,
                forall|j: int| 0 <= j < i ==> (#[trigger] self.iana_view()[j]).0 != key@,
            decreases n - i,
        {
            proof {
                assert(self.iana_view()[i as int] == (
                    self.iana@[i as int].0@,
                    vals_view(self.iana@[i as int].1),
                ));
            }
            if eq_bytes(self.iana[i].0.as_slice(), key) {
                proof {
                    lemma_assoc_find_at(self.iana_view(), key@, i as int);
                }
                return Some(i);
            }
            i += 1;
        }
        proof {
            lemma_assoc_find_none(self.iana_view(), key@);
        }
        None
    }

    /// Index of the entry with an extension key.
    fn find_extend(&self, key: &XName) -> (r: Option<usize>)
        ensures
            match r {
                Some(i) => assoc_find(self.extend_view(), key@) == Some(i as int),
                None => assoc_find(self.extend_view(), key@) is None,
            },
    {
        let n = self.extend.len();
        let mut i: usize = 0;
        proof {
            assert(self.extend_view().len() == n);
        }
        while i < n
            invariant
                n == self.extend@.len(),
                self.extend_view().len() == n,
                0 <= i <= n,
                forall|j: int| 0 <= j < i ==> (#[trigger] self.extend_view()[j]).0 != key@,
            decreases n - i,
        {
            proof {
                assert(self.extend_view()[i as int] == (
                    self.extend@[i as int].0@,
                    vals_view(self.extend@[i as int].1),
                ));
            }
            if xname_eq(&self.extend[i].0, key) {
                proof {
                    lemma_assoc_find_at(self.extend_view(), key@, i as int);
                }
                return Some(i);
            }
            i += 1;
        }
        proof {
            lemma_assoc_find_none(self.extend_view(), key@);
        }
        None
    }

    /// Add a value list under a registered name.
    fn add_values_iana(&mut self, key: Vec<u8>, values: Vec<Vec<u8>>)
        ensures
            final(self).iana_view() == spec_map_add(
                old(self).iana_view(),
                key@,
                values@.map_values(|v: Vec<u8>| v@),
            ),
            final(self).extend_view() == old(self).extend_view(),
    {
        let ghost vs = values@.map_values(|v: Vec<u8>| v@);
        let ghost pre = self.iana_view();
        let ghost prevec = self.iana@;
        if values.len() == 0 {
            proof {
                assert(vs.len() == 0);
            }
            return ;
        }
        match Self::find_iana(self, key.as_slice()) {
            Some(i) => {
                proof {
                    lemma_assoc_find(pre, key@);
                    assert(pre[i as int] == (prevec[i as int].0@, vals_view(prevec[i as int].1)));
                }
                let mut entry = self.iana.remove(i);
                let ghost oldelems = entry.1.elems();
                entry.1.append_vec(values);
                proof {
                    assert(vals_view(entry.1) =~= pre[i as int].1 + vs);
                }
                let ghost ev = vals_view(entry.1);
                let ghost ekey = entry.0@;
                self.iana.insert(i, entry);
                proof {
                    assert(ekey == key@);
                    assert(self.iana_view() =~= pre.update(
                        i as int,
                        (key@, pre[i as int].1 + vs),
                    ));
                    assert(self.extend_view() =~= old(self).extend_view());
                }
            },
            None => {
                let mut vrest = values;
                let first = vrest.remove(0);
                let one = VecOne::from_parts(first, vrest);
                let ghost onev = vals_view(one);
                self.iana.push((key, one));
                proof {
                    assert(onev =~= vs);
                    assert(self.iana_view() =~= pre.push((key@, vs)));
                    assert(self.extend_view() =~= old(self).extend_view());
                }
            },
        }
    }

    /// Add a value list under an extension name.
    fn add_values_extend(&mut self, key: XName, values: Vec<Vec<u8>>)
        ensures
            final(self).extend_view() == spec_map_add(
                old(self).extend_view(),
                key@,
                values@.map_values(|v: Vec<u8>| v@),
            ),
            final(self).iana_view() == old(self).iana_view(),
    {
        let ghost vs = values@.map_values(|v: Vec<u8>| v@);
        let ghost pre = self.extend_view();
        let ghost prevec = self.extend@;
        if values.len() == 0 {
            proof {
                assert(vs.len() == 0);
            }
            return ;
        }
        match Self::find_extend(self, &key) {
            Some(i) => {
                proof {
                    lemma_assoc_find(pre, key@);
                    assert(pre[i as int] == (prevec[i as int].0@, vals_view(prevec[i as int].1)));
                }
                let mut entry = self.extend.remove(i);
                entry.1.append_vec(values);
                proof {
                    assert(vals_view(entry.1) =~= pre[i as int].1 + vs);
                }
                let ghost ekey = entry.0@;
                self.extend.insert(i, entry);
                proof {
                    assert(ekey == key@);
                    assert(self.extend_view() =~= pre.update(
                        i as int,
                        (key@, pre[i as int].1 + vs),
                    ));
                    assert(self.iana_view() =~= old(self).iana_view());
                }
            },
            None => {
                let mut vrest = values;
                let first = vrest.remove(0);
                let one = VecOne::from_parts(first, vrest);
                let ghost onev = vals_view(one);
                self.extend.push((key, one));
                proof {
                    assert(onev =~= vs);
                    assert(self.extend_view() =~= pre.push((key@, vs)));
                    assert(self.iana_view() =~= old(self).iana_view());
                }
            },
        }
    }

    /// Add values under a name, keeping per-key insertion order; an empty
    /// list changes nothing.
    pub fn add_values(&mut self, name: Name, values: Vec<Vec<u8>>)
        ensures
            (match name@ {
                NameV::Iana(t) => final(self).iana_view() == spec_map_add(
                    old(self).iana_view(),
                    t,
                    values@.map_values(|v: Vec<u8>| v@),
                ) && final(self).extend_view() == old(self).extend_view(),
                NameV::XName(x) => final(self).extend_view() == spec_map_add(
                    old(self).extend_view(),
                    x,
                    values@.map_values(|v: Vec<u8>| v@),
                ) && final(self).iana_view() == old(self).iana_view(),
            }),
    {
        match name {
            Name::Iana(t) => Self::add_values_iana(self, t, values),
            Name::XName(x) => Self::add_values_extend(self, x, values),
        }
    }

    /// Add a single value under a name.
    pub fn push(&mut self, name: Name, value: Vec<u8>)
        ensures
            (match name@ {
                NameV::Iana(t) => final(self).iana_view() == spec_map_add(
                    old(self).iana_view(),
                    t,
                    seq![value@],
                ) && final(self).extend_view() == old(self).extend_view(),
                NameV::XName(x) => final(self).extend_view() == spec_map_add(
                    old(self).extend_view(),
                    x,
                    seq![value@],
                ) && final(self).iana_view() == old(self).iana_view(),
            }),
    {
        let ghost vv = value@;
        let mut values: Vec<Vec<u8>> = Vec::new();
        values.push(value);
        proof {
            assert(values@.map_values(|v: Vec<u8>| v@) =~= seq![vv]);
        }
        Self::add_values(self, name, values)
    }

    /// Add a single value under a name, by value.
    pub fn with_push(self, name: Name, value: Vec<u8>) -> (r: ParamMap)
        ensures
            (match name@ {
                NameV::Iana(t) => r.iana_view() == spec_map_add(self.iana_view(), t, seq![value@])
                    && r.extend_view() == self.extend_view(),
                NameV::XName(x) => r.extend_view() == spec_map_add(
                    self.extend_view(),
                    x,
                    seq![value@],
                ) && r.iana_view() == self.iana_view(),
            }),
    {
        let mut m = self;
        Self::push(&mut m, name, value);
        m
    }

    /// Add a value list under a name, by value.
    pub fn with_values(self, name: Name, values: Vec<Vec<u8>>) -> (r: ParamMap)
        ensures
            (match name@ {
                NameV::Iana(t) => r.iana_view() == spec_map_add(
                    self.iana_view(),
                    t,
                    values@.map_values(|v: Vec<u8>| v@),
                ) && r.extend_view() == self.extend_view(),
                NameV::XName(x) => r.extend_view() == spec_map_add(
                    self.extend_view(),
                    x,
                    values@.map_values(|v: Vec<u8>| v@),
                ) && r.iana_view() == self.iana_view(),
            }),
    {
        let mut m = self;
        Self::add_values(&mut m, name, values);
        m
    }

    /// Remove and return the full value list under a name, or nothing.
    pub fn take(&mut self, key: &Name) -> (r: Option<VecOne<Vec<u8>>>)
        ensures
            (match key@ {
                NameV::Iana(t) => {
                    let (m2, got) = spec_map_take(old(self).iana_view(), t);
                    &&& final(self).iana_view() == m2
                    &&& final(self).extend_view() == old(self).extend_view()
                    &&& (match got {
                        Some(vs) => r matches Some(l) && vals_view(l) == vs,
                        None => r is None,
                    })
                },
                NameV::XName(x) => {
                    let (m2, got) = spec_map_take(old(self).extend_view(), x);
                    &&& final(self).extend_view() == m2
                    &&& final(self).iana_view() == old(self).iana_view()
                    &&& (match got {
                        Some(vs) => r matches Some(l) && vals_view(l) == vs,
                        None => r is None,
                    })
                },
            }),
    {
        match key {
            Name::Iana(t) => {
                let ghost pre = self.iana_view();
                match Self::find_iana(self, t.as_slice()) {
                    Some(i) => {
                        proof {
                            lemma_assoc_find(pre, t@);
                            assert(pre[i as int] == (
                                self.iana@[i as int].0@,
                                vals_view(self.iana@[i as int].1),
                            ));
                        }
                        let entry = self.iana.remove(i);
                        proof {
                            assert(self.iana_view() =~= pre.remove(i as int));
                            assert(self.extend_view() =~= old(self).extend_view());
                        }
                        Some(entry.1)
                    },
                    None => {
                        proof {
                            assert(self.extend_view() =~= old(self).extend_view());
                        }
                        None
                    },
                }
            },
            Name::XName(x) => {
                let ghost pre = self.extend_view();
                match Self::find_extend(self, x) {
                    Some(i) => {
                        proof {
                            lemma_assoc_find(pre, x@);
                            assert(pre[i as int] == (
                                self.extend@[i as int].0@,
                                vals_view(self.extend@[i as int].1),
                            ));
                        }
                        let entry = self.extend.remove(i);
                        proof {
                            assert(self.extend_view() =~= pre.remove(i as int));
                            assert(self.iana_view() =~= old(self).iana_view());
                        }
                        Some(entry.1)
                    },
                    None => {
                        proof {
                            assert(self.iana_view() =~= old(self).iana_view());
                        }
                        None
                    },
                }
            },
        }
    }
}

/// The comma-separated values of one parameter, split outside quotes, each
/// checked as a quoted string or plain parameter text.
pub open spec fn values_loop(s: Seq<u8>, acc: Seq<Seq<u8>>) -> Result<Seq<Seq<u8>>, ParserError>
    decreases s.len(),
    via values_loop_dec
{
    if s.len() == 0 {
        Ok(acc)
    } else {
        let (v, rest) = spec_split_once_outside_quotes(s, COMMA);
        match spec_param_value(v) {
            Err(e) => Err(e),
            Ok(pv) => values_loop(rest, acc.push(pv)),
        }
    }
}

#[via_fn]
proof fn values_loop_dec(s: Seq<u8>, acc: Seq<Seq<u8>>) {
    crate::helpers::lemma_find_split_oq_bounds(s, COMMA, 0, false);
}

/// One parameter `name=value[,value...]`: no `=` is an error, the name
/// follows the name grammar, the values split on `,` outside quotes. The
/// parsed values are added to the map under the name; a parameter with no
/// values leaves the map unchanged.
pub open spec fn spec_parse_param(
    mi: Seq<(Seq<u8>, Seq<Seq<u8>>)>,
    me: Seq<(XNameV, Seq<Seq<u8>>)>,
    entry: Seq<u8>,
) -> Result<(Seq<(Seq<u8>, Seq<Seq<u8>>)>, Seq<(XNameV, Seq<Seq<u8>>)>), ParserError> {
    match spec_try_split_once(entry, EQUALS) {
        None => Err(ParserError { kind: ParserErrorKind::ParamMissingEquals }),
        Some((name_tok, rest)) => match crate::name::spec_parse_name(name_tok) {
            Err(e) => Err(e),
            Ok(nv) => match values_loop(rest, Seq::<Seq<u8>>::empty()) {
                Err(e) => Err(e),
                Ok(vs) => Ok(
                    match nv {
                        NameV::Iana(t) => (spec_map_add(mi, t, vs), me),
                        NameV::XName(x) => (mi, spec_map_add(me, x, vs)),
                    },
                ),
            },
        },
    }
}

impl ParamMap {
    /// Parse one parameter and add its values to the map.
    pub fn parse_param(&mut self, input: &[u8]) -> (r: Result<(), ParserError>)
        ensures
            match spec_parse_param(old(self).iana_view(), old(self).extend_view(), input@) {
                Ok((mi, me)) => r is Ok && final(self).iana_view() == mi
                    && final(self).extend_view() == me,
                Err(e) => r matches Err(x) && x == e && *final(self) == *old(self),
            },
    {
        let parts = match try_split_once(input, EQUALS) {
            Some(p) => p,
            None => {
                return Err(ParserError { kind: ParserErrorKind::ParamMissingEquals });
            },
        };
        let (name_tok, rest0) = parts;
        let name = match Name::parse(name_tok.as_slice()) {
            Ok(n) => n,
            Err(e) => {
                return Err(e);
            },
        };
        let ghost rest_start = rest0@;
        let ghost gname_tok = name_tok@;
        let mut rest = rest0;
        let mut values: Vec<Vec<u8>> = Vec::new();
        proof {
            assert(values@.map_values(|v: Vec<u8>| v@) =~= Seq::<Seq<u8>>::empty());
        }
        while rest.len() != 0
            invariant
                spec_try_split_once(input@, EQUALS) == Some((gname_tok, rest_start)),
                crate::name::spec_parse_name(gname_tok) is Ok,
                name@ == (crate::name::spec_parse_name(gname_tok)->Ok_0),
                *self == *old(self),
                values_loop(rest_start, Seq::<Seq<u8>>::empty()) == values_loop(
                    rest@,
                    values@.map_values(|v: Vec<u8>| v@),
                ),
            decreases rest@.len(),
        {
            proof {
                crate::helpers::lemma_find_split_oq_bounds(rest@, COMMA, 0, false);
            }
            let ghost acc0 = values@.map_values(|v: Vec<u8>| v@);
            let (next_param, i) = split_once_outside_quotes(rest.as_slice(), COMMA);
            let pv = match param_value(next_param.as_slice()) {
                Ok(v) => v,
                Err(e) => {
                    return Err(e);
                },
            };
            let ghost pvv = pv@;
            values.push(pv);
            proof {
                assert(values@.map_values(|v: Vec<u8>| v@) =~= acc0.push(pvv));
            }
            rest = i;
        }
        Self::add_values(self, name, values);
        Ok(())
    }
}

} // verus!
