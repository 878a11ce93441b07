//! A vector with at least one element, split into the first element and the
//! rest. Parameter values and comma-separated scalar lists are never empty,
//! and single-value extraction wants the first element at hand.

use vstd::prelude::*;

use crate::errors::{ParserError, ParserErrorKind};

verus! {

/// A vector with at least 1 element.
#[derive(Debug, Clone, PartialEq, Eq)]
pub struct VecOne<T> {
    pub first: T,
    pub rest: Vec<T>,
}

impl<T> VecOne<T> {
    /// All elements in order, the first one in front.
    pub open spec fn elems(&self) -> Seq<T> {
        seq![self.first] + self.rest@
    }

    /// A one-element vector.
    pub fn new(value: T) -> (r: VecOne<T>)
        ensures
            r.elems() == seq![value],
    {
        let r = VecOne { first: value, rest: Vec::new() };
        proof {
            assert(r.elems() =~= seq![value]);
        }
        r
    }

    /// Assemble from the first element and the rest.
    pub fn from_parts(first: T, rest: Vec<T>) -> (r: VecOne<T>)
        ensures
            r.elems() == seq![first] + rest@,
    {
        VecOne { first, rest }
    }

    /// Append one element at the back.
    pub fn push(&mut self, val: T)
        ensures
            final(self).elems() == old(self).elems().push(val),
    {
        self.rest.push(val);
        proof {
            assert(self.elems() =~= old(self).elems().push(val));
        }
    }

    /// Append every element of `other` at the back, in order.
    pub fn append_vec(&mut self, other: Vec<T>)
        ensures
            final(self).elems() == old(self).elems() + other@,
    {
        let mut o = other;
        self.rest.append(&mut o);
        proof {
            assert(self.elems() =~= old(self).elems() + other@);
        }
    }

    /// The single element, or an error if there is more than one.
    pub fn get_single(self) -> (r: Result<T, ParserError>)
        ensures
            self.elems().len() == 1 ==> (r matches Ok(v) && v == self.elems()[0]),
            self.elems().len() != 1 ==> r == Err::<T, ParserError>(
                ParserError { kind: ParserErrorKind::WrongElementCount },
            ),
    {
        if self.rest.len() > 0 {
            Err(ParserError { kind: ParserErrorKind::WrongElementCount })
        } else {
            Ok(self.first)
        }
    }
}

/// Flatten an optional nonempty vector into a plain vector: absent means
/// empty.
pub fn opt_vec_one_to_vec<T>(input: Option<VecOne<T>>) -> (r: Vec<T>)
    ensures
        (match input {
            Some(v) => r@ == v.elems(),
            None => r@ == Seq::<T>::empty(),
        }),
{
    match input {
        Some(vec_one) => {
            let ghost g = vec_one.elems();
            let VecOne { first, rest } = vec_one;
            let mut v: Vec<T> = Vec::new();
            v.push(first);
            let mut rest2 = rest;
            v.append(&mut rest2);
            proof {
                assert(v@ =~= g);
            }
            v
        },
        None => Vec::new(),
    }
}

} // verus!
