//! The properties the library promises across its types, each stated and
//! proved once: span inclusion, input monotonicity, bound override,
//! context widening, bound idempotence and retry soundness.

use vstd::prelude::*;

use crate::bound::Bound;
use crate::bytes::{is_prefix, within, Bytes};
use crate::expected::{widen_ok, Expected, ExpectedInner};
use crate::reader::advances;
use crate::text::MaybeString;

verus! {

/// Span inclusion: every well-formed error's span is a sub-view of its
/// input.
pub proof fn lemma_span_inclusion(e: Expected)
    requires
        e.wf(),
    ensures
        within(
            e.span_view()@,
            e.span_view().start_offset(),
            e.input_view()@,
            e.input_view().start_offset(),
        ),
{
}

/// Input monotonicity: a reader step never grows the input, so over any
/// sequence of successful operations the remaining length is
/// non-increasing.
pub proof fn lemma_advance_monotonic(pre: Bytes, post: Bytes)
    requires
        advances(pre, post),
    ensures
        post@.len() <= pre@.len(),
        pre.start_offset() <= post.start_offset(),
{
}

/// Reader steps compose: two advances in a row are one advance, so
/// monotonicity carries over whole operation sequences.
pub proof fn lemma_advance_trans(a: Bytes, b: Bytes, c: Bytes)
    requires
        advances(a, b),
        advances(b, c),
    ensures
        advances(a, c),
{
    crate::bytes::lemma_within_trans(
        c@,
        c.start_offset(),
        b@,
        b.start_offset(),
        a@,
        a.start_offset(),
    );
}

/// Bound override: whenever an error's input is fully bounded, the error
/// is fatal and carries no retry requirement, whatever shape it has.
pub proof fn lemma_bound_override(e: Expected)
    requires
        e.input_view().bound_spec() == Bound::Both,
    ensures
        e.is_fatal_spec(),
        e.retry_needed_spec() is None,
{
}

/// Context widening: when a scope releases an error whose input lies
/// within the scope's own input, the error's input becomes exactly the
/// scope's view.
pub proof fn lemma_context_widening(cur: MaybeString, outer: MaybeString, res: MaybeString)
    requires
        widen_ok(&cur, &outer, &res),
        within(cur@, cur.start_offset(), outer@, outer.start_offset()),
    ensures
        res@ == outer@,
        res.start_offset() == outer.start_offset(),
        res.bound_spec() == outer.bound_spec(),
{
}

/// Idempotent bound: marking an input as fully bounded a second time
/// changes nothing observable. The two arguments stand for the results of
/// one and of two applications, as their contracts describe them.
pub proof fn lemma_into_bound_idempotent(x: Bytes, once: Bytes, twice: Bytes)
    requires
        once@ == x@,
        once.start_offset() == x.start_offset(),
        once.bound_spec() == Bound::Both,
        twice@ == once@,
        twice.start_offset() == once.start_offset(),
        twice.bound_spec() == Bound::Both,
    ensures
        twice.eqv(&once),
{
}

/// Retry soundness for length requirements: a failed demand for `n` bytes
/// asks for exactly the shortfall, and any extension of at least that
/// many bytes meets the demand.
pub proof fn lemma_length_retry_sound(s: Seq<u8>, ext: Seq<u8>, n: nat)
    requires
        s.len() < n,
        s.len() + ext.len() >= n,
    ensures
        (s + ext).len() >= n,
{
}

/// Retry soundness for exact values: when the observed bytes are a
/// proper prefix of the expected value, extending them by the missing
/// length either completes the value, or diverges so that the new
/// failure is fatal: the first `value.len()` bytes of the extended input
/// are no longer a prefix of the value.
pub proof fn lemma_value_retry_sound(value: Seq<u8>, s: Seq<u8>, ext: Seq<u8>)
    requires
        is_prefix(s, value),
        s.len() < value.len(),
        s.len() + ext.len() >= value.len(),
        !is_prefix(value, s + ext),
    ensures
        !is_prefix((s + ext).subrange(0, value.len() as int), value),
{
    let extended = s + ext;
    let head = extended.subrange(0, value.len() as int);
    if is_prefix(head, value) {
        assert(value.subrange(0, head.len() as int) =~= head);
        assert(head =~= value);
        assert(extended.subrange(0, value.len() as int) == value);
        assert(is_prefix(value, extended));
    }
}

/// A fatal wrong-value error stays fatal: once the observed bytes are
/// not a prefix of the expected value, no extension makes them one.
pub proof fn lemma_value_divergence_final(value: Seq<u8>, s: Seq<u8>, ext: Seq<u8>)
    requires
        !is_prefix(s, value),
        s.len() <= value.len(),
    ensures
        !is_prefix(value, s + ext),
{
    let extended = s + ext;
    if is_prefix(value, extended) {
        assert forall|i: int| 0 <= i < s.len() implies s[i] == value[i] by {
            assert(extended[i] == value[i]);
        }
        assert(value.subrange(0, s.len() as int) =~= s);
    }
}

/// A fatal error of any structured shape reports no retry requirement.
pub proof fn lemma_fatal_no_retry(e: Expected)
    requires
        e.is_fatal_spec(),
    ensures
        e.retry_needed_spec() is None,
{
}

/// A retry requirement is only ever reported by a non-fatal error, and it
/// is always positive. A requirement stored by a content validator is
/// positive by that type's own invariant.
pub proof fn lemma_retry_positive(e: Expected)
    requires
        e.retry_needed_spec() is Some,
        (match e.inner_spec() {
            ExpectedInner::Valid(v) => match v.retry_requirement_spec() {
                Some(rr) => rr.inv(),
                None => true,
            },
            ExpectedInner::Value(_) => true,
            ExpectedInner::Length(_) => true,
        }),
    ensures
        !e.is_fatal_spec(),
        e.retry_needed_spec()->0 > 0,
{
}

} // verus!
