//! The text-input view: a byte window that is known to hold valid UTF-8 at
//! every observable point, and the sum type for inputs that may or may not
//! be known to be text.

use vstd::prelude::*;

use vstd::utf8::{
    is_char_boundary, is_char_boundary_iff_not_is_continuation_byte, valid_utf8, valid_utf8_split,
};

use crate::bound::Bound;
use crate::bytes::{within, Bytes};
use crate::string::is_valid_utf8;

verus! {

/// An immutable view of UTF-8 text to be processed. Its bytes are valid
/// UTF-8 at every observable point, and splits never bisect a code point.
#[derive(Debug)]
pub struct Text {
    inner: Bytes,
}

impl View for Text {
    type V = Seq<u8>;

    closed spec fn view(&self) -> Seq<u8> {
        self.inner@
    }
}

impl Clone for Text {
    /// A clone carries the same bytes, offset and bound.
    fn clone(&self) -> (res: Text)
        ensures
            res@ == self@,
            res.start_offset() == self.start_offset(),
            res.bound_spec() == self.bound_spec(),
            res.inv() == self.inv(),
    {
        Text { inner: self.inner.clone() }
    }
}

impl Text {
    /// True when `other` carries the same bytes, offset and bound.
    pub open spec fn eqv(&self, other: &Text) -> bool {
        &&& self@ == other@
        &&& self.start_offset() == other.start_offset()
        &&& self.bound_spec() == other.bound_spec()
    }

    /// The underlying byte view.
    pub closed spec fn inner_spec(&self) -> Bytes {
        self.inner
    }

    /// Offset of the first byte of this view within the original input.
    pub open spec fn start_offset(&self) -> nat {
        self.inner_spec().start_offset()
    }

    /// The [`Bound`] claim carried by this view.
    pub open spec fn bound_spec(&self) -> Bound {
        self.inner_spec().bound_spec()
    }

    /// The offsets fit the machine and the content is valid UTF-8.
    pub open spec fn inv(&self) -> bool {
        self.inner_spec().inv() && valid_utf8(self@)
    }

    /// Wraps `data` as a fresh text view when it is valid UTF-8.
    pub fn new(data: Vec<u8>, bound: Bound) -> (r: Option<Text>)
        ensures
            match r {
                Some(t) => {
                    &&& valid_utf8(data@)
                    &&& t@ == data@
                    &&& t.start_offset() == 0
                    &&& t.bound_spec() == bound
                    &&& t.inv()
                },
                None => !valid_utf8(data@),
            },
    {
        if is_valid_utf8(data.as_slice()) {
            Some(Text { inner: Bytes::new(data, bound) })
        } else {
            None
        }
    }

    /// Wraps `data` as a fresh text view; the caller has already shown
    /// the bytes to be valid UTF-8, so no validation pass is needed.
    pub fn from_valid_bytes(data: Vec<u8>, bound: Bound) -> (r: Text)
        requires
            valid_utf8(data@),
        ensures
            r@ == data@,
            r.start_offset() == 0,
            r.bound_spec() == bound,
            r.inv(),
    {
        Text { inner: Bytes::new(data, bound) }
    }

    /// Wraps an existing byte view whose content the caller has shown to
    /// be valid UTF-8.
    pub fn from_bytes(inner: Bytes) -> (r: Option<Text>)
        ensures
            match r {
                Some(t) => {
                    &&& valid_utf8(inner@)
                    &&& t.inner_spec() == inner
                },
                None => !valid_utf8(inner@),
            },
    {
        if is_valid_utf8(inner.as_dangerous()) {
            Some(Text { inner })
        } else {
            None
        }
    }

    /// The underlying bytes of the view.
    pub fn as_dangerous(&self) -> (r: &[u8])
        ensures
            r@ == self@,
    {
        self.inner.as_dangerous()
    }

    /// A code-point cursor over the text, readable from either end.
    pub fn chars(&self) -> (r: crate::string::CharIter)
        ensures
            r.bytes_spec() == self@,
            r.forward_spec() == 0,
            r.backward_spec() == self@.len(),
            r.inv(),
    {
        crate::string::CharIter::new(self.inner.as_dangerous())
    }

    /// Consumes the view into its raw byte form.
    pub fn into_bytes(self) -> (r: Bytes)
        ensures
            r == self.inner_spec(),
            r@ == self@,
            r.start_offset() == self.start_offset(),
            r.bound_spec() == self.bound_spec(),
            r.inv() == self.inner_spec().inv(),
    {
        self.inner
    }

    /// Offset of the view within the original input, as a value.
    pub fn start_index(&self) -> (r: usize)
        ensures
            r == self.start_offset(),
    {
        self.inner.start_index()
    }

    /// Returns the [`Bound`] of the view.
    pub fn bound(&self) -> (r: Bound)
        ensures
            r == self.bound_spec(),
    {
        self.inner.bound()
    }

    /// Length of the view in bytes.
    pub fn byte_len(&self) -> (r: usize)
        ensures
            r == self@.len(),
    {
        self.inner.byte_len()
    }

    /// True when the view holds no bytes.
    pub fn is_empty(&self) -> (r: bool)
        ensures
            r == (self@.len() == 0),
    {
        self.inner.is_empty()
    }

    /// True when the bound is [`Bound::Both`].
    pub fn is_bound(&self) -> (r: bool)
        ensures
            r == (self.bound_spec() == Bound::Both),
    {
        self.inner.is_bound()
    }

    /// Marks the view as fully bounded: the caller asserts no more data
    /// will arrive.
    pub fn into_bound(self) -> (r: Text)
        ensures
            r@ == self@,
            r.start_offset() == self.start_offset(),
            r.bound_spec() == Bound::Both,
            self.inv() ==> r.inv(),
    {
        Text { inner: self.inner.into_bound() }
    }

    /// Weakens the bound so the end of the view is no longer anchored.
    pub fn into_unbound_end(self) -> (r: Text)
        ensures
            r@ == self@,
            r.start_offset() == self.start_offset(),
            r.bound_spec() == self.bound_spec().open_end_spec(),
            self.inv() ==> r.inv(),
    {
        Text { inner: self.inner.into_unbound_end() }
    }

    /// An empty view pointing at the end of `self`, preserving the bound.
    pub fn end(&self) -> (r: Text)
        requires
            self.inv(),
        ensures
            r@ == Seq::<u8>::empty(),
            r.start_offset() == self.start_offset() + self@.len(),
            r.bound_spec() == self.bound_spec(),
            r.inv(),
    {
        Text { inner: self.inner.end() }
    }

    /// True when `self` lies within `parent`.
    pub fn is_within(&self, parent: &Text) -> (r: bool)
        ensures
            r == within(self@, self.start_offset(), parent@, parent.start_offset()),
    {
        self.inner.is_within(&parent.inner)
    }

    /// Start and end offsets of `self` inside `parent`, or `None` when
    /// `self` is not within `parent`.
    pub fn span_of(&self, parent: &Text) -> (r: Option<(usize, usize)>)
        ensures
            match r {
                Some((lo, hi)) => {
                    &&& within(self@, self.start_offset(), parent@, parent.start_offset())
                    &&& lo == self.start_offset() - parent.start_offset()
                    &&& hi == lo + self@.len()
                },
                None => !within(self@, self.start_offset(), parent@, parent.start_offset()),
            },
    {
        self.inner.span_of(&parent.inner)
    }

    /// As [`Text::span_of`], but `None` as well when `self` is empty.
    pub fn span_of_non_empty(&self, parent: &Text) -> (r: Option<(usize, usize)>)
        ensures
            r is Some ==> self@.len() > 0,
            r is Some ==> within(self@, self.start_offset(), parent@, parent.start_offset()),
    {
        self.inner.span_of_non_empty(&parent.inner)
    }

    /// Splits the text at byte index `mid` when that index exists and lies
    /// on a code-point boundary, so that both halves stay valid UTF-8.
    ///
    /// The index counts bytes, not code points: the reader's arithmetic is
    /// in bytes throughout, and an index inside a code point's encoding is
    /// answered with `None` rather than shifted.
    pub fn split_at_opt(self, mid: usize) -> (r: Option<(Text, Text)>)
        requires
            self.inv(),
        ensures
            match r {
                Some((head, tail)) => {
                    &&& is_char_boundary(self@, mid as int)
                    &&& mid <= self@.len()
                    &&& head@ == self@.subrange(0, mid as int)
                    &&& tail@ == self@.subrange(mid as int, self@.len() as int)
                    &&& head.start_offset() == self.start_offset()
                    &&& tail.start_offset() == self.start_offset() + mid
                    &&& head.bound_spec() == self.bound_spec().close_end_spec()
                    &&& tail.bound_spec() == self.bound_spec()
                    &&& head.inv()
                    &&& tail.inv()
                },
                None => mid > self@.len() || !is_char_boundary(self@, mid as int),
            },
    {
        let n = self.inner.byte_len();
        if mid > n {
            proof {
                vstd::utf8::is_char_boundary_start_end_of_seq(self@);
            }
            return None;
        }
        let boundary = if mid == 0 || mid == n {
            proof {
                vstd::utf8::is_char_boundary_start_end_of_seq(self@);
            }
            true
        } else {
            let b = self.inner.as_dangerous()[mid];
            proof {
                is_char_boundary_iff_not_is_continuation_byte(self@, mid as int);
            }
            !crate::string::utf8_is_cont_byte(b)
        };
        if boundary {
            Some(self.split_at_byte_unchecked(mid))
        } else {
            None
        }
    }

    /// Splits the text at byte index `mid`; the caller must have
    /// established that the index is in range and on a code-point
    /// boundary.
    pub fn split_at_byte_unchecked(self, mid: usize) -> (r: (Text, Text))
        requires
            self.inv(),
            mid <= self@.len(),
            is_char_boundary(self@, mid as int),
        ensures
            r.0@ == self@.subrange(0, mid as int),
            r.1@ == self@.subrange(mid as int, self@.len() as int),
            r.0.start_offset() == self.start_offset(),
            r.1.start_offset() == self.start_offset() + mid,
            r.0.bound_spec() == self.bound_spec().close_end_spec(),
            r.1.bound_spec() == self.bound_spec(),
            r.0.inv(),
            r.1.inv(),
    {
        proof {
            valid_utf8_split(self@, mid as int);
        }
        let (head, tail) = self.inner.split_at_byte_unchecked(mid);
        (Text { inner: head }, Text { inner: tail })
    }
}

/// An input that is either raw bytes or known-valid UTF-8 text, used where
/// an error needs to remember the textual nature of its input without
/// forcing validation.
#[derive(Debug)]
pub enum MaybeString {
    /// Raw bytes, not known to be text.
    Bytes(Bytes),
    /// Bytes known to be valid UTF-8.
    Text(Text),
}

impl View for MaybeString {
    type V = Seq<u8>;

    open spec fn view(&self) -> Seq<u8> {
        match self {
            MaybeString::Bytes(b) => b@,
            MaybeString::Text(t) => t@,
        }
    }
}

impl Clone for MaybeString {
    /// A clone carries the same bytes, offset, bound and textual nature.
    fn clone(&self) -> (res: MaybeString)
        ensures
            res@ == self@,
            res.start_offset() == self.start_offset(),
            res.bound_spec() == self.bound_spec(),
            res.inv() == self.inv(),
            res is Text <==> self is Text,
    {
        match self {
            MaybeString::Bytes(b) => MaybeString::Bytes(b.clone()),
            MaybeString::Text(t) => MaybeString::Text(t.clone()),
        }
    }
}

impl MaybeString {
    /// True when `other` carries the same bytes, offset, bound and textual
    /// nature.
    pub open spec fn eqv(&self, other: &MaybeString) -> bool {
        &&& self@ == other@
        &&& self.start_offset() == other.start_offset()
        &&& self.bound_spec() == other.bound_spec()
        &&& (self is Text <==> other is Text)
    }

    /// Offset of the first byte of this view within the original input.
    pub open spec fn start_offset(&self) -> nat {
        match self {
            MaybeString::Bytes(b) => b.start_offset(),
            MaybeString::Text(t) => t.start_offset(),
        }
    }

    /// The [`Bound`] claim carried by this view.
    pub open spec fn bound_spec(&self) -> Bound {
        match self {
            MaybeString::Bytes(b) => b.bound_spec(),
            MaybeString::Text(t) => t.bound_spec(),
        }
    }

    /// The wrapped view is well formed.
    pub open spec fn inv(&self) -> bool {
        match self {
            MaybeString::Bytes(b) => b.inv(),
            MaybeString::Text(t) => t.inv(),
        }
    }

    /// True when the input is known to be text.
    pub fn is_string(&self) -> (r: bool)
        ensures
            r == (self is Text),
    {
        match self {
            MaybeString::Bytes(_) => false,
            MaybeString::Text(_) => true,
        }
    }

    /// Length of the view in bytes.
    pub fn byte_len(&self) -> (r: usize)
        ensures
            r == self@.len(),
    {
        match self {
            MaybeString::Bytes(b) => b.byte_len(),
            MaybeString::Text(t) => t.byte_len(),
        }
    }

    /// True when the bound is [`Bound::Both`].
    pub fn is_bound(&self) -> (r: bool)
        ensures
            r == (self.bound_spec() == Bound::Both),
    {
        match self {
            MaybeString::Bytes(b) => b.is_bound(),
            MaybeString::Text(t) => t.is_bound(),
        }
    }

    /// Consumes the view into its raw byte form.
    pub fn into_bytes(self) -> (r: Bytes)
        ensures
            r@ == self@,
            r.start_offset() == self.start_offset(),
            r.bound_spec() == self.bound_spec(),
            self.inv() ==> r.inv(),
    {
        match self {
            MaybeString::Bytes(b) => b,
            MaybeString::Text(t) => t.into_bytes(),
        }
    }

    /// A borrowed raw byte slice of the view.
    pub fn as_dangerous(&self) -> (r: &[u8])
        ensures
            r@ == self@,
    {
        match self {
            MaybeString::Bytes(b) => b.as_dangerous(),
            MaybeString::Text(t) => t.as_dangerous(),
        }
    }
}

} // verus!
