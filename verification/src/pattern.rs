//! The pattern abstraction behind splits: a pattern answers where its
//! next match begins and ends, and where the first token that does not
//! match lies.

use vstd::prelude::*;

use crate::bytes::{slice_eq_at, Bytes};
use crate::expected::Value;

verus! {

/// A search primitive over byte input. `find_match` locates the first
/// match of the pattern, `find_reject` the first place the input stops
/// matching it; both are characterized by the pattern's own spec
/// functions.
pub trait Pattern: Sized {
    /// True when a match of the pattern begins at byte index `i` of
    /// `hay`.
    spec fn is_match_at(&self, hay: Seq<u8>, i: int) -> bool;

    /// The byte length of the match beginning at `i`.
    spec fn match_len_at(&self, hay: Seq<u8>, i: int) -> nat;

    /// True when index `i` is where `hay` stops matching the pattern.
    spec fn is_reject_at(&self, hay: Seq<u8>, i: int) -> bool;

    /// The bytes this pattern expects, for reporting a failed match.
    spec fn value_spec(&self) -> Seq<u8>;

    /// The byte index of the first match and its byte length, or `None`
    /// when the pattern matches nowhere.
    fn find_match(&self, hay: &Bytes) -> (r: Option<(usize, usize)>)
        ensures
            match r {
                Some((i, l)) => {
                    &&& i + l <= hay@.len()
                    &&& self.is_match_at(hay@, i as int)
                    &&& l == self.match_len_at(hay@, i as int)
                    &&& forall|j: int| 0 <= j < i ==> !self.is_match_at(hay@, j)
                },
                None => forall|j: int| 0 <= j <= hay@.len() ==> !self.is_match_at(hay@, j),
            },
    ;

    /// The byte index of the first token not matching the pattern, or
    /// `None` when every token matches.
    fn find_reject(&self, hay: &Bytes) -> (r: Option<usize>)
        ensures
            match r {
                Some(i) => {
                    &&& i <= hay@.len()
                    &&& self.is_reject_at(hay@, i as int)
                    &&& forall|j: int| 0 <= j < i ==> !self.is_reject_at(hay@, j)
                },
                None => forall|j: int| 0 <= j <= hay@.len() ==> !self.is_reject_at(hay@, j),
            },
    ;

    /// The pattern as an expected [`Value`] for a wrong-value error.
    fn to_value(&self) -> (r: Value)
        ensures
            r@ == self.value_spec(),
    ;
}

impl Pattern for u8 {
    /// A single byte matches by equality.
    open spec fn is_match_at(&self, hay: Seq<u8>, i: int) -> bool {
        0 <= i < hay.len() && hay[i] == *self
    }

    open spec fn match_len_at(&self, hay: Seq<u8>, i: int) -> nat {
        1
    }

    open spec fn is_reject_at(&self, hay: Seq<u8>, i: int) -> bool {
        0 <= i < hay.len() && hay[i] != *self
    }

    open spec fn value_spec(&self) -> Seq<u8> {
        seq![*self]
    }

    fn find_match(&self, hay: &Bytes) -> (r: Option<(usize, usize)>) {
        let s = hay.as_dangerous();
        let n = s.len();
        let mut i: usize = 0;
        while i < n
            invariant
                0 <= i <= n,
                n == s@.len(),
                s@ == hay@,
                forall|j: int| 0 <= j < i ==> !self.is_match_at(hay@, j),
            decreases n - i,
        {
            if s[i] == *self {
                return Some((i, 1));
            }
            i += 1;
        }
        None
    }

    fn find_reject(&self, hay: &Bytes) -> (r: Option<usize>) {
        let s = hay.as_dangerous();
        let n = s.len();
        let mut i: usize = 0;
        while i < n
            invariant
                0 <= i <= n,
                n == s@.len(),
                s@ == hay@,
                forall|j: int| 0 <= j < i ==> !self.is_reject_at(hay@, j),
            decreases n - i,
        {
            if s[i] != *self {
                return Some(i);
            }
            i += 1;
        }
        None
    }

    fn to_value(&self) -> (r: Value) {
        Value::Byte(*self)
    }
}

impl Pattern for Vec<u8> {
    /// A byte sequence matches by substring equality; the empty sequence
    /// matches before every byte, reported once at the start.
    open spec fn is_match_at(&self, hay: Seq<u8>, i: int) -> bool {
        if self@.len() == 0 {
            i == 0
        } else {
            0 <= i && i + self@.len() <= hay.len() && hay.subrange(i, i + self@.len()) == self@
        }
    }

    open spec fn match_len_at(&self, hay: Seq<u8>, i: int) -> nat {
        self@.len()
    }

    /// The input stops matching a byte-sequence pattern at the first
    /// whole-sequence boundary where the next repetition is absent or
    /// incomplete.
    open spec fn is_reject_at(&self, hay: Seq<u8>, i: int) -> bool {
        &&& self@.len() > 0
        &&& 0 <= i < hay.len()
        &&& i % (self@.len() as int) == 0
        &&& !(i + self@.len() <= hay.len() && hay.subrange(i, i + self@.len()) == self@)
    }

    open spec fn value_spec(&self) -> Seq<u8> {
        self@
    }

    fn find_match(&self, hay: &Bytes) -> (r: Option<(usize, usize)>) {
        let s = hay.as_dangerous();
        let n = s.len();
        let l = self.len();
        if l == 0 {
            return Some((0, 0));
        }
        if l > n {
            return None;
        }
        let mut i: usize = 0;
        while i <= n - l
            invariant
                0 <= i <= n - l + 1,
                0 < l <= n,
                n == s@.len(),
                l == self@.len(),
                s@ == hay@,
                forall|j: int| 0 <= j < i ==> !self.is_match_at(hay@, j),
            decreases n - i,
        {
            if slice_eq_at(s, self.as_slice(), i) {
                return Some((i, l));
            }
            i += 1;
        }
        None
    }

    fn find_reject(&self, hay: &Bytes) -> (r: Option<usize>) {
        let s = hay.as_dangerous();
        let n = s.len();
        let l = self.len();
        if l == 0 {
            return None;
        }
        let mut i: usize = 0;
        while n - i >= l
            invariant
                0 <= i <= n,
                0 < l,
                n == s@.len(),
                l == self@.len(),
                s@ == hay@,
                (i as int) % (l as int) == 0,
                forall|j: int| 0 <= j < i ==> !self.is_reject_at(hay@, j),
            decreases n - i,
        {
            if !slice_eq_at(s, self.as_slice(), i) {
                return Some(i);
            }
            proof {
                assert forall|j: int| i < j < i + l implies #[trigger] (j % (l as int)) != 0 by {
                    assert(j % (l as int) == j - i) by (nonlinear_arith)
                        requires
                            (i as int) % (l as int) == 0,
                            i < j < i + l,
                            0 < l,
                    ;
                }
                assert(((i + l) as int) % (l as int) == 0) by (nonlinear_arith)
                    requires
                        (i as int) % (l as int) == 0,
                        0 < l,
                ;
            }
            i += l;
        }
        if i < n {
            Some(i)
        } else {
            None
        }
    }

    fn to_value(&self) -> (r: Value) {
        let c = self.clone();
        proof {
            assert(c@ =~= self@);
        }
        Value::Bytes(c)
    }
}

} // verus!
