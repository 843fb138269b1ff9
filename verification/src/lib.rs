//! A safe, incremental input-parsing substrate for untrusted byte and text
//! input.
//!
//! The crate wraps raw bytes in an immutable [`Bytes`](bytes::Bytes) or
//! [`Text`](text::Text) view carrying a [`Bound`](bound::Bound), lets a
//! [`Reader`](reader::Reader) consume it transactionally, and reports
//! failures through structured errors that carry a span, a context chain and
//! a retry classification.

use vstd::prelude::*;

pub mod bound;
pub mod bytes;
pub mod context;
pub mod display;
pub mod expected;
pub mod fatal;
pub mod input;
pub mod laws;
pub mod num;
pub mod pattern;
pub mod reader;
pub mod retry;
pub mod split;
pub mod string;
pub mod text;

use crate::input::Input;
use crate::input::IntoInput;

verus! {

/// Wraps `source` as fresh input to be processed, with its start
/// anchored: the single place where untrusted input enters a parser.
pub fn input<T: IntoInput>(source: T) -> (r: T::Input)
    ensures
        r.data_spec() == source.into_data_spec(),
        r.off_spec() == 0,
        r.bnd_spec() == bound::Bound::Start,
        r.wf_spec(),
{
    source.into_input()
}

} // verus!
