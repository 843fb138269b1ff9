//! The byte-input view: an immutable window over the original input,
//! remembering its offset within that input so failure sites can be spanned
//! back to it.

use vstd::prelude::*;

use crate::bound::Bound;

verus! {

/// True when a view with content `child` starting at origin offset
/// `child_start` lies inside a view with content `parent` starting at origin
/// offset `parent_start`: the offset range is contained and the contents
/// agree on it.
///
/// Offsets stand in for pointer ranges, so views of two unrelated
/// origins whose offsets and bytes happen to align compare as within
/// each other; views carved from one original input are always told
/// apart correctly.
pub open spec fn within(
    child: Seq<u8>,
    child_start: nat,
    parent: Seq<u8>,
    parent_start: nat,
) -> bool {
    &&& parent_start <= child_start
    &&& child_start + child.len() <= parent_start + parent.len()
    &&& child == parent.subrange(
        child_start - parent_start,
        child_start - parent_start + child.len(),
    )
}

/// Containment of views is transitive.
pub proof fn lemma_within_trans(
    a: Seq<u8>,
    a_start: nat,
    b: Seq<u8>,
    b_start: nat,
    c: Seq<u8>,
    c_start: nat,
)
    requires
        within(a, a_start, b, b_start),
        within(b, b_start, c, c_start),
    ensures
        within(a, a_start, c, c_start),
{
    assert(a =~= c.subrange(a_start - c_start, a_start - c_start + a.len()));
}

/// A view lying within a well-formed view is itself well formed.
pub proof fn lemma_within_inv(a: Bytes, b: Bytes)
    requires
        within(a@, a.start_offset(), b@, b.start_offset()),
        b.inv(),
    ensures
        a.inv(),
{
}

/// Every view lies within itself.
pub proof fn lemma_within_refl(a: Seq<u8>, a_start: nat)
    ensures
        within(a, a_start, a, a_start),
{
    assert(a =~= a.subrange(0, a.len() as int));
}

/// Compares `b` against the bytes of `a` starting at offset `off`.
pub(crate) fn slice_eq_at(a: &[u8], b: &[u8], off: usize) -> (r: bool)
    requires
        off + b@.len() <= a@.len(),
    ensures
        r == (b@ == a@.subrange(off as int, off + b@.len())),
{
    let n: usize = b.len();
    let a_len: usize = a.len();
    let mut i: usize = 0;
    while i < n
        invariant
            0 <= i <= n,
            n == b@.len(),
            a_len == a@.len(),
            off + n <= a@.len(),
            forall|j: int| 0 <= j < i ==> b@[j] == a@[off + j],
        decreases n - i,
    {
        if a[off + i] != b[i] {
            assert(b@ != a@.subrange(off as int, off + b@.len())) by {
                assert(a@.subrange(off as int, off + b@.len())[i as int] == a@[off + i]);
            }
            return false;
        }
        i += 1;
    }
    assert(b@ =~= a@.subrange(off as int, off + b@.len()));
    true
}

/// True when `p` is a prefix of `s`.
pub open spec fn is_prefix(p: Seq<u8>, s: Seq<u8>) -> bool {
    p.len() <= s.len() && s.subrange(0, p.len() as int) == p
}

/// Checks whether `s` starts with `p`.
pub fn starts_with(s: &[u8], p: &[u8]) -> (r: bool)
    ensures
        r == is_prefix(p@, s@),
{
    if p.len() <= s.len() {
        slice_eq_at(s, p, 0)
    } else {
        false
    }
}

/// An immutable view of raw bytes to be processed, together with the
/// caller's [`Bound`] claim and the view's offset within the original input
/// it was carved from.
#[derive(Debug)]
pub struct Bytes {
    data: Vec<u8>,
    start: usize,
    bound: Bound,
}

impl View for Bytes {
    type V = Seq<u8>;

    closed spec fn view(&self) -> Seq<u8> {
        self.data@
    }
}

impl Clone for Bytes {
    /// A clone carries the same bytes, offset and bound.
    fn clone(&self) -> (res: Bytes)
        ensures
            res@ == self@,
            res.start_offset() == self.start_offset(),
            res.bound_spec() == self.bound_spec(),
            res.inv() == self.inv(),
    {
        let data = self.data.clone();
        proof {
            assert(data@ =~= self.data@);
        }
        Bytes { data, start: self.start, bound: self.bound }
    }
}

impl Bytes {
    /// True when `other` carries the same bytes, offset and bound.
    pub open spec fn eqv(&self, other: &Bytes) -> bool {
        &&& self@ == other@
        &&& self.start_offset() == other.start_offset()
        &&& self.bound_spec() == other.bound_spec()
    }

    /// Offset of the first byte of this view within the original input.
    pub closed spec fn start_offset(&self) -> nat {
        self.start as nat
    }

    /// Offset one past the last byte of this view within the original input.
    pub open spec fn end_offset(&self) -> nat {
        self.start_offset() + self@.len()
    }

    /// The [`Bound`] claim carried by this view.
    pub closed spec fn bound_spec(&self) -> Bound {
        self.bound
    }

    /// Offsets stay within machine range: every view is carved out of one
    /// original input whose length fits in `usize`.
    pub closed spec fn inv(&self) -> bool {
        self.start + self.data@.len() <= usize::MAX
    }

    /// True when `self` lies within `parent` (offset containment plus
    /// agreeing content).
    pub open spec fn is_within_spec(&self, parent: &Bytes) -> bool {
        within(self@, self.start_offset(), parent@, parent.start_offset())
    }

    /// Wraps `data` as a fresh view with offset zero and the given bound.
    pub fn new(data: Vec<u8>, bound: Bound) -> (r: Bytes)
        ensures
            r@ == data@,
            r.start_offset() == 0,
            r.bound_spec() == bound,
            r.inv(),
    {
        let n: usize = data.len();
        Bytes { data, start: 0, bound }
    }

    /// The underlying bytes of the view.
    pub fn as_dangerous(&self) -> (r: &[u8])
        ensures
            r@ == self@,
    {
        self.data.as_slice()
    }

    /// Offset of the view within the original input, as a value.
    pub fn start_index(&self) -> (r: usize)
        ensures
            r == self.start_offset(),
    {
        self.start
    }

    /// Returns the [`Bound`] of the view.
    pub fn bound(&self) -> (r: Bound)
        ensures
            r == self.bound_spec(),
    {
        self.bound
    }

    /// Length of the view in bytes.
    pub fn byte_len(&self) -> (r: usize)
        ensures
            r == self@.len(),
    {
        self.data.len()
    }

    /// True when the view holds no bytes.
    pub fn is_empty(&self) -> (r: bool)
        ensures
            r == (self@.len() == 0),
    {
        self.data.len() == 0
    }

    /// True when the bound is [`Bound::Both`].
    pub fn is_bound(&self) -> (r: bool)
        ensures
            r == (self.bound_spec() == Bound::Both),
    {
        self.bound == Bound::Both
    }

    /// Marks the view as fully bounded: the caller asserts no more data
    /// will arrive.
    pub fn into_bound(self) -> (r: Bytes)
        ensures
            r@ == self@,
            r.start_offset() == self.start_offset(),
            r.bound_spec() == Bound::Both,
            self.inv() ==> r.inv(),
    {
        Bytes { bound: Bound::Both, ..self }
    }

    /// Weakens the bound so the end of the view is no longer anchored.
    pub fn into_unbound_end(self) -> (r: Bytes)
        ensures
            r@ == self@,
            r.start_offset() == self.start_offset(),
            r.bound_spec() == self.bound_spec().open_end_spec(),
            self.inv() ==> r.inv(),
    {
        let bound = self.bound.open_end();
        Bytes { bound, ..self }
    }

    /// An empty view pointing at the end of `self`, preserving the bound.
    pub fn end(&self) -> (r: Bytes)
        requires
            self.inv(),
        ensures
            r@ == Seq::<u8>::empty(),
            r.start_offset() == self.end_offset(),
            r.bound_spec() == self.bound_spec(),
            r.inv(),
            r.is_within_spec(self),
    {
        let r = Bytes { data: Vec::new(), start: self.start + self.data.len(), bound: self.bound };
        proof {
            assert(r@ =~= self@.subrange(self@.len() as int, self@.len() as int));
        }
        r
    }

    /// True when `self` lies within `parent`: the offset range of `self` is
    /// contained in that of `parent` and the contents agree there.
    pub fn is_within(&self, parent: &Bytes) -> (r: bool)
        ensures
            r == self.is_within_spec(parent),
    {
        if parent.start <= self.start {
            let off = self.start - parent.start;
            if off <= parent.data.len() && self.data.len() <= parent.data.len() - off {
                return slice_eq_at(parent.data.as_slice(), self.data.as_slice(), off);
            }
        }
        false
    }

    /// Start and end offsets of `self` inside `parent`, or `None` when
    /// `self` is not within `parent`.
    pub fn span_of(&self, parent: &Bytes) -> (r: Option<(usize, usize)>)
        ensures
            match r {
                Some((lo, hi)) => {
                    &&& self.is_within_spec(parent)
                    &&& lo == self.start_offset() - parent.start_offset()
                    &&& hi == lo + self@.len()
                },
                None => !self.is_within_spec(parent),
            },
    {
        if self.is_within(parent) {
            let parent_len: usize = parent.data.len();
            let lo = self.start - parent.start;
            assert(lo + self@.len() <= parent_len);
            let hi = lo + self.data.len();
            Some((lo, hi))
        } else {
            None
        }
    }

    /// As [`Bytes::span_of`], but `None` as well when `self` is empty.
    pub fn span_of_non_empty(&self, parent: &Bytes) -> (r: Option<(usize, usize)>)
        ensures
            match r {
                Some((lo, hi)) => {
                    &&& self.is_within_spec(parent)
                    &&& self@.len() > 0
                    &&& lo == self.start_offset() - parent.start_offset()
                    &&& hi == lo + self@.len()
                },
                None => self@.len() == 0 || !self.is_within_spec(parent),
            },
    {
        if self.is_empty() {
            None
        } else {
            self.span_of(parent)
        }
    }

    /// Splits the view at byte index `mid`. The caller must have
    /// established that `mid` is in range; the head's end becomes anchored,
    /// the tail keeps the bound of `self`.
    pub fn split_at_byte_unchecked(self, mid: usize) -> (r: (Bytes, Bytes))
        requires
            self.inv(),
            mid <= self@.len(),
        ensures
            r.0@ == self@.subrange(0, mid as int),
            r.1@ == self@.subrange(mid as int, self@.len() as int),
            r.0.start_offset() == self.start_offset(),
            r.1.start_offset() == self.start_offset() + mid,
            r.0.bound_spec() == self.bound_spec().close_end_spec(),
            r.1.bound_spec() == self.bound_spec(),
            r.0.inv(),
            r.1.inv(),
            r.0.is_within_spec(&self),
            r.1.is_within_spec(&self),
    {
        let mut head_data: Vec<u8> = Vec::new();
        let mut i: usize = 0;
        while i < mid
            invariant
                0 <= i <= mid <= self@.len(),
                self.inv(),
                head_data@ == self@.subrange(0, i as int),
            decreases mid - i,
        {
            head_data.push(self.data[i]);
            proof {
                assert(head_data@ =~= self@.subrange(0, i + 1));
            }
            i += 1;
        }
        let mut tail_data: Vec<u8> = Vec::new();
        let mut j: usize = mid;
        let n: usize = self.data.len();
        while j < n
            invariant
                mid <= j <= n,
                n == self@.len(),
                self.inv(),
                tail_data@ == self@.subrange(mid as int, j as int),
            decreases n - j,
        {
            tail_data.push(self.data[j]);
            proof {
                assert(tail_data@ =~= self@.subrange(mid as int, j + 1));
            }
            j += 1;
        }
        let head = Bytes {
            data: head_data,
            start: self.start,
            bound: self.bound.close_end(),
        };
        let tail = Bytes { data: tail_data, start: self.start + mid, bound: self.bound };
        proof {
            assert(head@ =~= self@.subrange(0, head@.len() as int));
            assert(tail@ =~= self@.subrange(
                tail.start_offset() - self.start_offset(),
                tail.start_offset() - self.start_offset() + tail@.len(),
            ));
        }
        (head, tail)
    }
}

} // verus!
