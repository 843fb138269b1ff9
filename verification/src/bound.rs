//! The claim a caller makes about whether more data may arrive past the
//! edges of an input view.

use vstd::prelude::*;

verus! {

/// Whether more input may arrive past the start or the end of a view.
///
/// A bound is a claim by the caller about future availability of data, not a
/// property of the bytes themselves.
#[derive(Clone, Copy, Debug, PartialEq, Eq, Structural)]
pub enum Bound {
    /// Neither edge is anchored: the view is a pure middle slice and may be
    /// extended on either side in a future pass.
    Unbound,
    /// The start is anchored; only the end may grow. This is the state of a
    /// freshly created input.
    Start,
    /// Both edges are anchored: no further data will arrive, and any length
    /// shortfall is fatal.
    Both,
}

impl Bound {
    /// The bound of the head of a split: the head's end is fixed by the
    /// split, so a `Start` bound strengthens to `Both`. An unanchored view
    /// stays unanchored, since its start remains free.
    pub fn close_end(self) -> (r: Bound)
        ensures
            r == self.close_end_spec(),
    {
        match self {
            Bound::Unbound => Bound::Unbound,
            Bound::Start => Bound::Both,
            Bound::Both => Bound::Both,
        }
    }

    /// What [`Bound::close_end`] returns.
    pub open spec fn close_end_spec(self) -> Bound {
        match self {
            Bound::Unbound => Bound::Unbound,
            Bound::Start => Bound::Both,
            Bound::Both => Bound::Both,
        }
    }

    /// The bound of a view whose end is no longer anchored: `Both` weakens
    /// to `Start`.
    pub fn open_end(self) -> (r: Bound)
        ensures
            r == self.open_end_spec(),
    {
        match self {
            Bound::Unbound => Bound::Unbound,
            Bound::Start => Bound::Start,
            Bound::Both => Bound::Start,
        }
    }

    /// What [`Bound::open_end`] returns.
    pub open spec fn open_end_spec(self) -> Bound {
        match self {
            Bound::Unbound => Bound::Unbound,
            Bound::Start => Bound::Start,
            Bound::Both => Bound::Start,
        }
    }
}

} // verus!
