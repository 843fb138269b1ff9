//! The capability set every input view offers: bound handling, length,
//! sub-span queries and conversions, with the byte and text views as its
//! two implementations.

use vstd::prelude::*;

use vstd::string::StringSliceAdditionalSpecFns;
use vstd::utf8::{is_char_boundary, valid_utf8};

use crate::bound::Bound;
use crate::bytes::{within, Bytes};
use crate::display::InputDisplay;
use crate::string::scalar_utf8_len;
use crate::text::{MaybeString, Text};

verus! {

/// Checks offset containment plus content agreement of one view inside
/// another, given each view's bytes and origin offset.
pub(crate) fn within_check(
    child: &[u8],
    child_start: usize,
    parent: &[u8],
    parent_start: usize,
) -> (r: bool)
    ensures
        r == within(child@, child_start as nat, parent@, parent_start as nat),
{
    if parent_start <= child_start {
        let off = child_start - parent_start;
        if off <= parent.len() && child.len() <= parent.len() - off {
            return crate::bytes::slice_eq_at(parent, child, off);
        }
    }
    false
}

/// An input is an immutable wrapper around bytes to be processed. It is
/// created by [`input`](crate::input) so that the place where untrusted
/// input enters is clearly visible, and it takes the form of either
/// [`Bytes`] or [`Text`].
pub trait Input: Sized + Clone {
    /// The bytes of the view.
    spec fn data_spec(&self) -> Seq<u8>;

    /// Offset of the view within the original input it was carved from.
    spec fn off_spec(&self) -> nat;

    /// The bound claim the view carries.
    spec fn bnd_spec(&self) -> Bound;

    /// The view is well formed.
    spec fn wf_spec(&self) -> bool;

    /// Returns the input's [`Bound`].
    fn bound(&self) -> (r: Bound)
        ensures
            r == self.bnd_spec(),
    ;

    /// The underlying byte slice of the view.
    fn as_dangerous(&self) -> (r: &[u8])
        ensures
            r@ == self.data_spec(),
    ;

    /// Offset of the view within the original input.
    fn start_index(&self) -> (r: usize)
        ensures
            r == self.off_spec(),
    ;

    /// Returns `self` as a bound input: the caller asserts it will not be
    /// extended in future passes, so no failure on it produces a retry
    /// requirement.
    fn into_bound(self) -> (r: Self)
        ensures
            r.data_spec() == self.data_spec(),
            r.off_spec() == self.off_spec(),
            r.bnd_spec() == Bound::Both,
            self.wf_spec() ==> r.wf_spec(),
    ;

    /// Consumes `self` into [`Bytes`].
    fn into_bytes(self) -> (r: Bytes)
        ensures
            r@ == self.data_spec(),
            r.start_offset() == self.off_spec(),
            r.bound_spec() == self.bnd_spec(),
            self.wf_spec() ==> r.inv(),
    ;

    /// Consumes `self` into a [`MaybeString`], remembering whether the
    /// bytes are known UTF-8.
    fn into_maybe_string(self) -> (r: MaybeString)
        ensures
            r@ == self.data_spec(),
            r.start_offset() == self.off_spec(),
            r.bound_spec() == self.bnd_spec(),
            self.wf_spec() ==> r.inv(),
    ;

    /// Returns an [`InputDisplay`] for formatting.
    fn display(&self) -> (r: InputDisplay)
        ensures
            r.input_spec()@ == self.data_spec(),
    ;

    /// Returns the underlying byte slice length.
    fn byte_len(&self) -> (r: usize)
        ensures
            r == self.data_spec().len(),
    ;

    /// Returns `true` if the underlying byte slice length is zero.
    fn is_empty(&self) -> (r: bool)
        ensures
            r == (self.data_spec().len() == 0),
    ;

    /// Returns `true` if the bound is [`Bound::Both`].
    fn is_bound(&self) -> (r: bool)
        ensures
            r == (self.bnd_spec() == Bound::Both),
    ;

    /// Returns `true` if the byte region of `parent` contains that of
    /// `self`, with agreeing content. A parent of either form is compared
    /// through its byte view.
    fn is_within(&self, parent: &Bytes) -> (r: bool)
        ensures
            r == within(self.data_spec(), self.off_spec(), parent@, parent.start_offset()),
    ;

    /// The start and end offsets of `self` within `parent`, or `None`
    /// when `self` is not within it.
    fn span_of(&self, parent: &Bytes) -> (r: Option<(usize, usize)>)
        ensures
            match r {
                Some((lo, hi)) => {
                    &&& within(
                        self.data_spec(),
                        self.off_spec(),
                        parent@,
                        parent.start_offset(),
                    )
                    &&& lo == self.off_spec() - parent.start_offset()
                    &&& hi == lo + self.data_spec().len()
                },
                None => !within(
                    self.data_spec(),
                    self.off_spec(),
                    parent@,
                    parent.start_offset(),
                ),
            },
    ;

    /// As [`Input::span_of`], but `None` as well when `self` is empty.
    fn span_of_non_empty(&self, parent: &Bytes) -> (r: Option<(usize, usize)>)
        ensures
            r is Some ==> self.data_spec().len() > 0 && within(
                self.data_spec(),
                self.off_spec(),
                parent@,
                parent.start_offset(),
            ),
            r is None ==> self.data_spec().len() == 0 || !within(
                self.data_spec(),
                self.off_spec(),
                parent@,
                parent.start_offset(),
            ),
    ;
}

/// The reader-side requirements of an input: producing its end, weakening
/// its bound, and splitting it without bisecting a token.
pub trait Private: Input {
    /// True when the input may be split at byte index `mid`: the index is
    /// in range and, for text, on a code-point boundary.
    spec fn can_split_at(&self, mid: nat) -> bool;

    /// An empty input pointing at the end of `self`, preserving the
    /// bound.
    fn end(self) -> (r: Self)
        requires
            self.wf_spec(),
        ensures
            r.data_spec() == Seq::<u8>::empty(),
            r.off_spec() == self.off_spec() + self.data_spec().len(),
            r.bnd_spec() == self.bnd_spec(),
            r.wf_spec(),
    ;

    /// Returns `self` with its end bound removed.
    fn into_unbound_end(self) -> (r: Self)
        ensures
            r.data_spec() == self.data_spec(),
            r.off_spec() == self.off_spec(),
            r.bnd_spec() == self.bnd_spec().open_end_spec(),
            self.wf_spec() ==> r.wf_spec(),
    ;

    /// Splits the input at byte index `mid`, or `None` when no split may
    /// happen there.
    fn split_at_opt(self, mid: usize) -> (r: Option<(Self, Self)>)
        requires
            self.wf_spec(),
        ensures
            match r {
                Some((head, tail)) => {
                    &&& self.can_split_at(mid as nat)
                    &&& head.data_spec() == self.data_spec().subrange(0, mid as int)
                    &&& tail.data_spec() == self.data_spec().subrange(
                        mid as int,
                        self.data_spec().len() as int,
                    )
                    &&& head.off_spec() == self.off_spec()
                    &&& tail.off_spec() == self.off_spec() + mid
                    &&& head.bnd_spec() == self.bnd_spec().close_end_spec()
                    &&& tail.bnd_spec() == self.bnd_spec()
                    &&& head.wf_spec()
                    &&& tail.wf_spec()
                },
                None => !self.can_split_at(mid as nat),
            },
    ;

    /// Splits the input at byte index `mid`; the caller must have
    /// established that a split may happen there.
    fn split_at_byte_unchecked(self, mid: usize) -> (r: (Self, Self))
        requires
            self.wf_spec(),
            self.can_split_at(mid as nat),
        ensures
            r.0.data_spec() == self.data_spec().subrange(0, mid as int),
            r.1.data_spec() == self.data_spec().subrange(
                mid as int,
                self.data_spec().len() as int,
            ),
            r.0.off_spec() == self.off_spec(),
            r.1.off_spec() == self.off_spec() + mid,
            r.0.bnd_spec() == self.bnd_spec().close_end_spec(),
            r.1.bnd_spec() == self.bnd_spec(),
            r.0.wf_spec(),
            r.1.wf_spec(),
    ;
}

impl Input for Bytes {
    open spec fn data_spec(&self) -> Seq<u8> {
        self@
    }

    open spec fn off_spec(&self) -> nat {
        self.start_offset()
    }

    open spec fn bnd_spec(&self) -> Bound {
        self.bound_spec()
    }

    open spec fn wf_spec(&self) -> bool {
        self.inv()
    }

    fn bound(&self) -> (r: Bound) {
        Bytes::bound(self)
    }

    fn as_dangerous(&self) -> (r: &[u8]) {
        Bytes::as_dangerous(self)
    }

    fn start_index(&self) -> (r: usize) {
        Bytes::start_index(self)
    }

    fn into_bound(self) -> (r: Self) {
        Bytes::into_bound(self)
    }

    fn into_bytes(self) -> (r: Bytes) {
        self
    }

    fn into_maybe_string(self) -> (r: MaybeString) {
        MaybeString::Bytes(self)
    }

    fn display(&self) -> (r: InputDisplay) {
        InputDisplay::new(MaybeString::Bytes(self.clone()))
    }

    fn byte_len(&self) -> (r: usize) {
        Bytes::byte_len(self)
    }

    fn is_empty(&self) -> (r: bool) {
        Bytes::is_empty(self)
    }

    fn is_bound(&self) -> (r: bool) {
        Bytes::is_bound(self)
    }

    fn is_within(&self, parent: &Bytes) -> (r: bool) {
        Bytes::is_within(self, parent)
    }

    fn span_of(&self, parent: &Bytes) -> (r: Option<(usize, usize)>) {
        Bytes::span_of(self, parent)
    }

    fn span_of_non_empty(&self, parent: &Bytes) -> (r: Option<(usize, usize)>) {
        Bytes::span_of_non_empty(self, parent)
    }
}

impl Private for Bytes {
    open spec fn can_split_at(&self, mid: nat) -> bool {
        mid <= self@.len()
    }

    fn end(self) -> (r: Self) {
        Bytes::end(&self)
    }

    fn into_unbound_end(self) -> (r: Self) {
        Bytes::into_unbound_end(self)
    }

    fn split_at_opt(self, mid: usize) -> (r: Option<(Self, Self)>) {
        Bytes::split_at_opt(self, mid)
    }

    fn split_at_byte_unchecked(self, mid: usize) -> (r: (Self, Self)) {
        Bytes::split_at_byte_unchecked(self, mid)
    }
}

impl Input for Text {
    open spec fn data_spec(&self) -> Seq<u8> {
        self@
    }

    open spec fn off_spec(&self) -> nat {
        self.start_offset()
    }

    open spec fn bnd_spec(&self) -> Bound {
        self.bound_spec()
    }

    open spec fn wf_spec(&self) -> bool {
        self.inv()
    }

    fn bound(&self) -> (r: Bound) {
        Text::bound(self)
    }

    fn as_dangerous(&self) -> (r: &[u8]) {
        Text::as_dangerous(self)
    }

    fn start_index(&self) -> (r: usize) {
        Text::start_index(self)
    }

    fn into_bound(self) -> (r: Self) {
        Text::into_bound(self)
    }

    fn into_bytes(self) -> (r: Bytes) {
        Text::into_bytes(self)
    }

    fn into_maybe_string(self) -> (r: MaybeString) {
        MaybeString::Text(self)
    }

    fn display(&self) -> (r: InputDisplay) {
        InputDisplay::new(MaybeString::Text(self.clone()))
    }

    fn byte_len(&self) -> (r: usize) {
        Text::byte_len(self)
    }

    fn is_empty(&self) -> (r: bool) {
        Text::is_empty(self)
    }

    fn is_bound(&self) -> (r: bool) {
        Text::is_bound(self)
    }

    fn is_within(&self, parent: &Bytes) -> (r: bool) {
        within_check(
            Text::as_dangerous(self),
            Text::start_index(self),
            Bytes::as_dangerous(parent),
            Bytes::start_index(parent),
        )
    }

    fn span_of(&self, parent: &Bytes) -> (r: Option<(usize, usize)>) {
        if Input::is_within(self, parent) {
            let parent_len: usize = Bytes::byte_len(parent);
            let lo = Text::start_index(self) - Bytes::start_index(parent);
            assert(lo + self@.len() <= parent_len);
            let hi = lo + Text::byte_len(self);
            Some((lo, hi))
        } else {
            None
        }
    }

    fn span_of_non_empty(&self, parent: &Bytes) -> (r: Option<(usize, usize)>) {
        if Text::is_empty(self) {
            None
        } else {
            Input::span_of(self, parent)
        }
    }
}

impl Private for Text {
    open spec fn can_split_at(&self, mid: nat) -> bool {
        mid <= self@.len() && is_char_boundary(self@, mid as int)
    }

    fn end(self) -> (r: Self) {
        Text::end(&self)
    }

    fn into_unbound_end(self) -> (r: Self) {
        Text::into_unbound_end(self)
    }

    fn split_at_opt(self, mid: usize) -> (r: Option<(Self, Self)>) {
        Text::split_at_opt(self, mid)
    }

    fn split_at_byte_unchecked(self, mid: usize) -> (r: (Self, Self)) {
        Text::split_at_byte_unchecked(self, mid)
    }
}

/// How many input bytes a token or prefix occupies.
pub trait BytesLength: Copy {
    /// The byte length as a mathematical value.
    spec fn byte_len_spec(self) -> nat;

    /// How many input bytes `self` occupies.
    fn byte_len(self) -> (r: usize)
        ensures
            r == self.byte_len_spec(),
    ;
}

impl BytesLength for u8 {
    /// A byte is one byte long.
    open spec fn byte_len_spec(self) -> nat {
        1
    }

    fn byte_len(self) -> (r: usize) {
        1
    }
}

impl BytesLength for char {
    /// A character occupies the length of its UTF-8 encoding.
    open spec fn byte_len_spec(self) -> nat {
        scalar_utf8_len(self as u32)
    }

    fn byte_len(self) -> (r: usize) {
        crate::string::char_len_utf8(self)
    }
}

/// A value that can serve as fresh input, with its start anchored.
pub trait IntoInput: Sized {
    /// The input view it becomes.
    type Input: Input;

    /// The bytes the input will hold.
    spec fn into_data_spec(&self) -> Seq<u8>;

    /// Consumes `self` into a fresh input with offset zero and a
    /// [`Bound::Start`] bound.
    fn into_input(self) -> (r: Self::Input)
        ensures
            r.data_spec() == self.into_data_spec(),
            r.off_spec() == 0,
            r.bnd_spec() == Bound::Start,
            r.wf_spec(),
    ;
}

impl IntoInput for Vec<u8> {
    type Input = Bytes;

    open spec fn into_data_spec(&self) -> Seq<u8> {
        self@
    }

    fn into_input(self) -> (r: Bytes) {
        Bytes::new(self, Bound::Start)
    }
}

impl IntoInput for &[u8] {
    type Input = Bytes;

    open spec fn into_data_spec(&self) -> Seq<u8> {
        self@
    }

    fn into_input(self) -> (r: Bytes) {
        Bytes::new(vstd::slice::slice_to_vec(self), Bound::Start)
    }
}

impl IntoInput for &str {
    type Input = Text;

    /// A string enters as its UTF-8 bytes, already known valid.
    open spec fn into_data_spec(&self) -> Seq<u8> {
        self.spec_bytes()
    }

    fn into_input(self) -> (r: Text) {
        proof {
            vstd::utf8::encode_utf8_valid_utf8(self@);
        }
        let bytes = vstd::slice::slice_to_vec(self.as_bytes());
        Text::from_valid_bytes(bytes, Bound::Start)
    }
}

} // verus!
