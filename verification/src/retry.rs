//! Quantifying how many more bytes a failed operation would have needed,
//! for callers that stream input in passes.

use vstd::prelude::*;

verus! {

/// A positive number of additional bytes that might let the failing
/// operation succeed if appended to the input.
#[derive(Clone, Copy, Debug, PartialEq, Eq, Structural)]
pub struct RetryRequirement {
    needed: usize,
}

impl RetryRequirement {
    /// The requirement is always for at least one more byte: a request for
    /// zero more bytes would be meaningless.
    pub closed spec fn needed_spec(&self) -> nat {
        self.needed as nat
    }

    /// Every requirement asks for at least one byte.
    pub open spec fn inv(&self) -> bool {
        self.needed_spec() > 0
    }

    /// A requirement for `needed` more bytes, or `None` when `needed` is
    /// zero.
    pub fn new(needed: usize) -> (r: Option<RetryRequirement>)
        ensures
            match r {
                Some(req) => needed > 0 && req.needed_spec() == needed && req.inv(),
                None => needed == 0,
            },
    {
        if needed == 0 {
            None
        } else {
            Some(RetryRequirement { needed })
        }
    }

    /// Given what was had and what was needed, the outstanding
    /// requirement: `Some(needed - had)` when the input fell short, `None`
    /// when it already sufficed.
    pub fn from_had_and_needed(had: usize, needed: usize) -> (r: Option<RetryRequirement>)
        ensures
            match r {
                Some(req) => had < needed && req.needed_spec() == needed - had && req.inv(),
                None => had >= needed,
            },
    {
        if had < needed {
            RetryRequirement::new(needed - had)
        } else {
            None
        }
    }

    /// How many more bytes are required.
    pub fn needed_more(&self) -> (r: usize)
        ensures
            r == self.needed_spec(),
    {
        self.needed
    }
}

} // verus!
