//! The structured error shapes: a wrong exact value, a failed length
//! requirement, and semantically invalid content, plus the catch-all
//! [`Expected`] that wraps any of them together with a context chain.

use vstd::prelude::*;

use crate::bound::Bound;
use crate::bytes::{is_prefix, lemma_within_trans, starts_with, within, Bytes};
use crate::context::{Context, ContextChain, ExpectedContext};
use crate::display::{byte_count_chars, byte_count_string, push_str, ErrorDisplay};
use crate::retry::RetryRequirement;
use crate::text::MaybeString;

verus! {

/// The input that was widened into an error when an outer scope releases
/// it: the outer view when the error's input lies within it, else the
/// error's own input unchanged.
pub open spec fn widen_ok(cur: &MaybeString, outer: &MaybeString, res: &MaybeString) -> bool {
    if within(cur@, cur.start_offset(), outer@, outer.start_offset()) {
        res.eqv(outer)
    } else {
        res.eqv(cur)
    }
}

/// True when `e` is `e0` with everything kept except its input widened
/// toward `outer`: same shape, same expected value or lengths or retry
/// requirement, same span and same seeded context.
pub open spec fn inner_widened(e0: &Expected, outer: &MaybeString, e: &Expected) -> bool {
    match e0.inner_spec() {
        ExpectedInner::Value(v0) => {
            &&& e.inner_spec() matches ExpectedInner::Value(v1)
            &&& {
                let v1 = e.inner_spec()->Value_0;
                &&& v1.value_spec() == v0.value_spec()
                &&& v1.span_spec() == v0.span_spec()
                &&& v1.context_spec() == v0.context_spec()
                &&& widen_ok(&v0.input_spec(), outer, &v1.input_spec())
            }
        },
        ExpectedInner::Length(l0) => {
            &&& e.inner_spec() matches ExpectedInner::Length(l1)
            &&& {
                let l1 = e.inner_spec()->Length_0;
                &&& l1.min_spec() == l0.min_spec()
                &&& l1.max_spec() == l0.max_spec()
                &&& l1.span_spec() == l0.span_spec()
                &&& l1.context_spec() == l0.context_spec()
                &&& widen_ok(&l0.input_spec(), outer, &l1.input_spec())
            }
        },
        ExpectedInner::Valid(d0) => {
            &&& e.inner_spec() matches ExpectedInner::Valid(d1)
            &&& {
                let d1 = e.inner_spec()->Valid_0;
                &&& d1.span_spec() == d0.span_spec()
                &&& d1.context_spec() == d0.context_spec()
                &&& d1.retry_requirement_spec() == d0.retry_requirement_spec()
                &&& widen_ok(&d0.input_spec(), outer, &d1.input_spec())
            }
        },
    }
}

/// Replaces `cur` by a copy of `outer` when `cur` lies within it.
fn widen_input(cur: &mut MaybeString, outer: &MaybeString)
    ensures
        widen_ok(old(cur), outer, final(cur)),
        final(cur).inv() == (if within(
            old(cur)@,
            old(cur).start_offset(),
            outer@,
            outer.start_offset(),
        ) {
            outer.inv()
        } else {
            old(cur).inv()
        }),
{
    let cur_bytes = match cur {
        MaybeString::Bytes(b) => b.clone(),
        MaybeString::Text(t) => t.clone().into_bytes(),
    };
    let outer_bytes = match outer {
        MaybeString::Bytes(b) => b.clone(),
        MaybeString::Text(t) => t.clone().into_bytes(),
    };
    if cur_bytes.is_within(&outer_bytes) {
        *cur = outer.clone();
    }
}

/// An exact value that was expected of the input.
#[derive(Debug)]
pub enum Value {
    /// A single byte.
    Byte(u8),
    /// A byte sequence.
    Bytes(Vec<u8>),
}

impl View for Value {
    type V = Seq<u8>;

    open spec fn view(&self) -> Seq<u8> {
        match self {
            Value::Byte(b) => seq![*b],
            Value::Bytes(v) => v@,
        }
    }
}

impl Clone for Value {
    /// A clone carries the same expected bytes.
    fn clone(&self) -> (res: Value)
        ensures
            res@ == self@,
    {
        match self {
            Value::Byte(b) => Value::Byte(*b),
            Value::Bytes(v) => {
                let c = v.clone();
                proof {
                    assert(c@ =~= v@);
                }
                Value::Bytes(c)
            },
        }
    }
}

impl Value {
    /// The expected bytes as a fresh input view of their own.
    pub fn as_input(&self) -> (r: Bytes)
        ensures
            r@ == self@,
            r.start_offset() == 0,
            r.bound_spec() == Bound::Start,
            r.inv(),
    {
        match self {
            Value::Byte(b) => {
                let mut v: Vec<u8> = Vec::new();
                v.push(*b);
                proof {
                    assert(v@ =~= seq![*b]);
                }
                Bytes::new(v, Bound::Start)
            },
            Value::Bytes(v) => {
                let c = v.clone();
                proof {
                    assert(c@ =~= v@);
                }
                Bytes::new(c, Bound::Start)
            },
        }
    }

    /// Length of the expected bytes.
    pub fn byte_len(&self) -> (r: usize)
        ensures
            r == self@.len(),
    {
        match self {
            Value::Byte(_) => 1,
            Value::Bytes(v) => v.len(),
        }
    }
}

/// An error representing a failed exact-value requirement of the input:
/// the bytes at the failure site differed from the value expected there.
#[derive(Debug)]
pub struct ExpectedValue {
    pub(crate) value: Value,
    pub(crate) span: Bytes,
    pub(crate) input: MaybeString,
    pub(crate) context: ExpectedContext,
}

impl ExpectedValue {
    /// The expected value.
    pub closed spec fn value_spec(&self) -> Seq<u8> {
        self.value@
    }

    /// The bytes observed at the failure site.
    pub closed spec fn span_spec(&self) -> Bytes {
        self.span
    }

    /// The input the failure was observed in.
    pub closed spec fn input_spec(&self) -> MaybeString {
        self.input
    }

    /// The context at the failure site.
    pub closed spec fn context_spec(&self) -> ExpectedContext {
        self.context
    }

    /// The span always lies within the input.
    pub open spec fn wf(&self) -> bool {
        &&& within(
            self.span_spec()@,
            self.span_spec().start_offset(),
            self.input_spec()@,
            self.input_spec().start_offset(),
        )
        &&& self.span_spec().inv()
        &&& self.input_spec().inv()
    }

    /// Fatal when no extension of the observed bytes could match: the
    /// input is fully bounded, or the observed bytes already diverge from
    /// the expected value.
    pub open spec fn is_fatal_spec(&self) -> bool {
        self.input_spec().bound_spec() == Bound::Both || !is_prefix(
            self.span_spec()@,
            self.value_spec(),
        )
    }

    /// An error observing `span` inside `input`, where `value` was
    /// expected during `context`'s operation.
    pub fn new(value: Value, span: Bytes, input: MaybeString, context: ExpectedContext) -> (r:
        ExpectedValue)
        ensures
            r.value_spec() == value@,
            r.span_spec() == span,
            r.input_spec() == input,
            r.context_spec() == context,
    {
        ExpectedValue { value, span, input, context }
    }

    /// The [`Input`](crate::bytes::Bytes) value that was expected.
    pub fn expected(&self) -> (r: Bytes)
        ensures
            r@ == self.value_spec(),
    {
        self.value.as_input()
    }

    /// Returns `true` if the value could never match, and `false` if the
    /// matching was incomplete and more input could still succeed.
    pub fn is_fatal(&self) -> (r: bool)
        ensures
            r == self.is_fatal_spec(),
    {
        if self.input.is_bound() {
            return true;
        }
        let value = self.value.as_input();
        !starts_with(value.as_dangerous(), self.span.as_dangerous())
    }

    /// Returns an [`ErrorDisplay`] for formatting.
    pub fn display(&self) -> (r: ErrorDisplay)
        ensures
            r.rendered_spec() == "found a different value to the exact expected"@,
    {
        ErrorDisplay::new(self.description())
    }

    /// What this error is, in words.
    pub fn description(&self) -> (r: String)
        ensures
            r@ == "found a different value to the exact expected"@,
    {
        "found a different value to the exact expected".to_owned()
    }

    /// The input the failure was observed in.
    pub fn input(&self) -> (r: &MaybeString)
        ensures
            r == self.input_spec(),
    {
        &self.input
    }

    /// The bytes observed at the failure site.
    pub fn span(&self) -> (r: &Bytes)
        ensures
            r == self.span_spec(),
    {
        &self.span
    }

    /// The context at the failure site.
    pub fn context(&self) -> (r: ExpectedContext)
        ensures
            r == self.context_spec(),
    {
        self.context
    }

    /// The input that was found, if this error retains one.
    pub fn found_value(&self) -> (r: Option<&MaybeString>)
        ensures
            r == Some(&self.input_spec()),
    {
        Some(&self.input)
    }

    /// The value that was expected, if this error retains one.
    pub fn expected_value(&self) -> (r: Option<Bytes>)
        ensures
            match r {
                Some(b) => b@ == self.value_spec(),
                None => false,
            },
    {
        Some(self.value.as_input())
    }

    /// How many more bytes might let the match succeed: `None` when the
    /// failure is fatal, else the length the expected value has over the
    /// observed bytes.
    pub fn to_retry_requirement(&self) -> (r: Option<RetryRequirement>)
        ensures
            match r {
                Some(req) => !self.is_fatal_spec() && self.value_spec().len()
                    > self.span_spec()@.len() && req.needed_spec() == self.value_spec().len()
                    - self.span_spec()@.len(),
                None => self.is_fatal_spec() || self.value_spec().len() <= self.span_spec()@.len(),
            },
    {
        if self.is_fatal() {
            None
        } else {
            let needed = self.value.byte_len();
            let had = self.span.byte_len();
            RetryRequirement::from_had_and_needed(had, needed)
        }
    }

    /// Replaces the input with the wider `input` when the current one lies
    /// within it.
    pub fn update_input(&mut self, input: &MaybeString)
        ensures
            widen_ok(&old(self).input_spec(), input, &final(self).input_spec()),
            final(self).value_spec() == old(self).value_spec(),
            final(self).span_spec() == old(self).span_spec(),
            final(self).context_spec() == old(self).context_spec(),
            old(self).wf() && input.inv() ==> final(self).wf(),
    {
        proof {
            let cur = &self.input;
            if within(cur@, cur.start_offset(), input@, input.start_offset()) && self.wf() {
                lemma_within_trans(
                    self.span@,
                    self.span.start_offset(),
                    cur@,
                    cur.start_offset(),
                    input@,
                    input.start_offset(),
                );
            }
        }
        widen_input(&mut self.input, input);
    }

    /// Widens the input toward the outer scope's view; the context itself
    /// is kept only by errors that carry a chain.
    pub fn with_context<C: Context>(self, input: &MaybeString, context: &C) -> (r: ExpectedValue)
        ensures
            widen_ok(&self.input_spec(), input, &r.input_spec()),
            r.value_spec() == self.value_spec(),
            r.span_spec() == self.span_spec(),
            r.context_spec() == self.context_spec(),
            self.wf() && input.inv() ==> r.wf(),
    {
        let mut e = self;
        e.update_input(input);
        e
    }
}

/// An error representing a failed length requirement of the input: fewer
/// bytes than `min`, or, when `max` is set, more bytes than allowed.
#[derive(Debug)]
pub struct ExpectedLength {
    pub(crate) min: usize,
    pub(crate) max: Option<usize>,
    pub(crate) span: Bytes,
    pub(crate) input: MaybeString,
    pub(crate) context: ExpectedContext,
}

impl ExpectedLength {
    /// The minimum length that was required.
    pub closed spec fn min_spec(&self) -> nat {
        self.min as nat
    }

    /// The maximum length that was allowed, if one was.
    pub closed spec fn max_spec(&self) -> Option<usize> {
        self.max
    }

    /// The bytes observed at the failure site.
    pub closed spec fn span_spec(&self) -> Bytes {
        self.span
    }

    /// The input the failure was observed in.
    pub closed spec fn input_spec(&self) -> MaybeString {
        self.input
    }

    /// The context at the failure site.
    pub closed spec fn context_spec(&self) -> ExpectedContext {
        self.context
    }

    /// The span always lies within the input.
    pub open spec fn wf(&self) -> bool {
        &&& within(
            self.span_spec()@,
            self.span_spec().start_offset(),
            self.input_spec()@,
            self.input_spec().start_offset(),
        )
        &&& self.span_spec().inv()
        &&& self.input_spec().inv()
    }

    /// Fatal when more input could not help: an upper bound was violated,
    /// or the input is fully bounded.
    pub open spec fn is_fatal_spec(&self) -> bool {
        self.max_spec() is Some || self.input_spec().bound_spec() == Bound::Both
    }

    /// An error observing `span` inside `input`, where between `min` and
    /// `max` bytes were required during `context`'s operation.
    pub fn new(
        min: usize,
        max: Option<usize>,
        span: Bytes,
        input: MaybeString,
        context: ExpectedContext,
    ) -> (r: ExpectedLength)
        ensures
            r.min_spec() == min,
            r.max_spec() == max,
            r.span_spec() == span,
            r.input_spec() == input,
            r.context_spec() == context,
    {
        ExpectedLength { min, max, span, input, context }
    }

    /// The minimum length that was expected in a context.
    ///
    /// This does not take into account the section of input being
    /// processed when this error occurred. To work out the requirement to
    /// continue processing input, use
    /// [`ExpectedLength::to_retry_requirement`].
    pub fn min(&self) -> (r: usize)
        ensures
            r == self.min_spec(),
    {
        self.min
    }

    /// The maximum length that was expected in a context, if applicable.
    ///
    /// If `max` has a value, the input exceeded it in some way, as when
    /// input was left over after a read that had to consume it all.
    pub fn max(&self) -> (r: Option<usize>)
        ensures
            r == self.max_spec(),
    {
        self.max
    }

    /// Returns `true` if an exact length was expected in a context.
    pub fn is_exact(&self) -> (r: bool)
        ensures
            r == (self.max_spec() == Some(self.min_spec() as usize)),
    {
        match self.max {
            Some(mx) => mx == self.min,
            None => false,
        }
    }

    /// Returns `true` if more input could not help.
    pub fn is_fatal(&self) -> (r: bool)
        ensures
            r == self.is_fatal_spec(),
    {
        self.max.is_some() || self.input.is_bound()
    }

    /// The exact length that was expected in a context, if
    /// [`ExpectedLength::is_exact`] holds.
    pub fn exact(&self) -> (r: Option<usize>)
        ensures
            r == (if self.max_spec() == Some(self.min_spec() as usize) {
                self.max_spec()
            } else {
                Option::<usize>::None
            }),
    {
        if self.is_exact() {
            self.max
        } else {
            None
        }
    }

    /// Returns an [`ErrorDisplay`] for formatting.
    pub fn display(&self) -> (r: ErrorDisplay)
        ensures
            r.rendered_spec() == "found "@ + byte_count_chars(self.span_spec()@.len()) + " when "@
                + length_requirement_chars(self.min_spec(), self.max_spec()) + " was expected"@,
    {
        ErrorDisplay::new(self.description())
    }

    /// What this error is, in words: the bytes found against the bytes
    /// required.
    pub fn description(&self) -> (r: String)
        ensures
            r@ == "found "@ + byte_count_chars(self.span_spec()@.len()) + " when "@
                + length_requirement_chars(self.min_spec(), self.max_spec()) + " was expected"@,
    {
        proof {
            reveal_strlit("found ");
            reveal_strlit(" when ");
            reveal_strlit(" was expected");
            reveal_strlit("at most ");
            reveal_strlit("at least ");
            reveal_strlit("exactly ");
            reveal_strlit(" and at most ");
        }
        let mut s = "found ".to_owned();
        let found = byte_count_string(self.span.byte_len());
        push_str(&mut s, found.as_str());
        push_str(&mut s, " when ");
        match self.max {
            Some(mx) => {
                if self.min == 0 {
                    push_str(&mut s, "at most ");
                    let c = byte_count_string(mx);
                    push_str(&mut s, c.as_str());
                } else if self.min == mx {
                    push_str(&mut s, "exactly ");
                    let c = byte_count_string(mx);
                    push_str(&mut s, c.as_str());
                } else {
                    push_str(&mut s, "at least ");
                    let c = byte_count_string(self.min);
                    push_str(&mut s, c.as_str());
                    push_str(&mut s, " and at most ");
                    let d = byte_count_string(mx);
                    push_str(&mut s, d.as_str());
                }
            },
            None => {
                push_str(&mut s, "at least ");
                let c = byte_count_string(self.min);
                push_str(&mut s, c.as_str());
            },
        }
        push_str(&mut s, " was expected");
        s
    }

    /// The input the failure was observed in.
    pub fn input(&self) -> (r: &MaybeString)
        ensures
            r == self.input_spec(),
    {
        &self.input
    }

    /// The bytes observed at the failure site.
    pub fn span(&self) -> (r: &Bytes)
        ensures
            r == self.span_spec(),
    {
        &self.span
    }

    /// The context at the failure site.
    pub fn context(&self) -> (r: ExpectedContext)
        ensures
            r == self.context_spec(),
    {
        self.context
    }

    /// The input that was found, if this error retains one.
    pub fn found_value(&self) -> (r: Option<&MaybeString>)
        ensures
            r == Some(&self.input_spec()),
    {
        Some(&self.input)
    }

    /// The value that was expected: a length requirement retains none.
    pub fn expected_value(&self) -> (r: Option<Bytes>)
        ensures
            r is None,
    {
        None
    }

    /// How many more bytes might meet the requirement: `None` when the
    /// failure is fatal, else what the minimum has over the observed
    /// bytes.
    pub fn to_retry_requirement(&self) -> (r: Option<RetryRequirement>)
        ensures
            match r {
                Some(req) => !self.is_fatal_spec() && self.min_spec() > self.span_spec()@.len()
                    && req.needed_spec() == self.min_spec() - self.span_spec()@.len(),
                None => self.is_fatal_spec() || self.min_spec() <= self.span_spec()@.len(),
            },
    {
        if self.is_fatal() {
            None
        } else {
            let had = self.span.byte_len();
            let needed = self.min;
            RetryRequirement::from_had_and_needed(had, needed)
        }
    }

    /// Replaces the input with the wider `input` when the current one lies
    /// within it.
    pub fn update_input(&mut self, input: &MaybeString)
        ensures
            widen_ok(&old(self).input_spec(), input, &final(self).input_spec()),
            final(self).min_spec() == old(self).min_spec(),
            final(self).max_spec() == old(self).max_spec(),
            final(self).span_spec() == old(self).span_spec(),
            final(self).context_spec() == old(self).context_spec(),
            old(self).wf() && input.inv() ==> final(self).wf(),
    {
        proof {
            let cur = &self.input;
            if within(cur@, cur.start_offset(), input@, input.start_offset()) && self.wf() {
                lemma_within_trans(
                    self.span@,
                    self.span.start_offset(),
                    cur@,
                    cur.start_offset(),
                    input@,
                    input.start_offset(),
                );
            }
        }
        widen_input(&mut self.input, input);
    }

    /// Widens the input toward the outer scope's view; the context itself
    /// is kept only by errors that carry a chain.
    pub fn with_context<C: Context>(self, input: &MaybeString, context: &C) -> (r: ExpectedLength)
        ensures
            widen_ok(&self.input_spec(), input, &r.input_spec()),
            r.min_spec() == self.min_spec(),
            r.max_spec() == self.max_spec(),
            r.span_spec() == self.span_spec(),
            r.context_spec() == self.context_spec(),
            self.wf() && input.inv() ==> r.wf(),
    {
        let mut e = self;
        e.update_input(input);
        e
    }
}

/// The words for a length requirement: at most, at least, exactly, or a
/// range.
pub open spec fn length_requirement_chars(min: nat, max: Option<usize>) -> Seq<char> {
    match max {
        Some(mx) => if min == 0 {
            "at most "@ + byte_count_chars(mx as nat)
        } else if min == mx {
            "exactly "@ + byte_count_chars(mx as nat)
        } else {
            "at least "@ + byte_count_chars(min) + " and at most "@ + byte_count_chars(mx as nat)
        },
        None => "at least "@ + byte_count_chars(min),
    }
}

/// An error representing semantically invalid content: a validator
/// rejected the input, optionally saying how much more input could have
/// helped.
#[derive(Debug)]
pub struct ExpectedValid {
    pub(crate) span: Bytes,
    pub(crate) input: MaybeString,
    pub(crate) context: ExpectedContext,
    pub(crate) retry_requirement: Option<RetryRequirement>,
}

impl ExpectedValid {
    /// The bytes observed at the failure site.
    pub closed spec fn span_spec(&self) -> Bytes {
        self.span
    }

    /// The input the failure was observed in.
    pub closed spec fn input_spec(&self) -> MaybeString {
        self.input
    }

    /// The context at the failure site.
    pub closed spec fn context_spec(&self) -> ExpectedContext {
        self.context
    }

    /// The retry requirement the validator supplied, if any.
    pub closed spec fn retry_requirement_spec(&self) -> Option<RetryRequirement> {
        self.retry_requirement
    }

    /// The span always lies within the input.
    pub open spec fn wf(&self) -> bool {
        &&& within(
            self.span_spec()@,
            self.span_spec().start_offset(),
            self.input_spec()@,
            self.input_spec().start_offset(),
        )
        &&& self.span_spec().inv()
        &&& self.input_spec().inv()
    }

    /// Fatal when the validator supplied no retry requirement, or the
    /// input is fully bounded.
    pub open spec fn is_fatal_spec(&self) -> bool {
        self.input_spec().bound_spec() == Bound::Both || self.retry_requirement_spec() is None
    }

    /// An error observing `span` inside `input`, whose content a
    /// validator rejected during `context`'s operation, with the
    /// validator's own word on whether more input could help.
    pub fn new(
        span: Bytes,
        input: MaybeString,
        context: ExpectedContext,
        retry_requirement: Option<RetryRequirement>,
    ) -> (r: ExpectedValid)
        ensures
            r.span_spec() == span,
            r.input_spec() == input,
            r.context_spec() == context,
            r.retry_requirement_spec() == retry_requirement,
    {
        ExpectedValid { span, input, context, retry_requirement }
    }

    /// Returns an [`ErrorDisplay`] for formatting.
    pub fn display(&self) -> (r: ErrorDisplay)
        ensures
            r.rendered_spec() == "invalid "@ + self.context_spec().expected@,
    {
        ErrorDisplay::new(self.description())
    }

    /// What this error is, in words: the expectation that the content
    /// failed.
    pub fn description(&self) -> (r: String)
        ensures
            r@ == "invalid "@ + self.context_spec().expected@,
    {
        proof {
            reveal_strlit("invalid ");
        }
        let mut s = "invalid ".to_owned();
        push_str(&mut s, self.context.expected);
        s
    }

    /// The input the failure was observed in.
    pub fn input(&self) -> (r: &MaybeString)
        ensures
            r == self.input_spec(),
    {
        &self.input
    }

    /// The bytes observed at the failure site.
    pub fn span(&self) -> (r: &Bytes)
        ensures
            r == self.span_spec(),
    {
        &self.span
    }

    /// The context at the failure site.
    pub fn context(&self) -> (r: ExpectedContext)
        ensures
            r == self.context_spec(),
    {
        self.context
    }

    /// The input that was found, if this error retains one.
    pub fn found_value(&self) -> (r: Option<&MaybeString>)
        ensures
            r == Some(&self.input_spec()),
    {
        Some(&self.input)
    }

    /// The value that was expected: invalid content names none.
    pub fn expected_value(&self) -> (r: Option<Bytes>)
        ensures
            r is None,
    {
        None
    }

    /// Whether the failure is final.
    pub fn is_fatal(&self) -> (r: bool)
        ensures
            r == self.is_fatal_spec(),
    {
        self.input.is_bound() || self.retry_requirement.is_none()
    }

    /// The validator's stored retry requirement, unless the input is
    /// fully bounded, which makes the failure fatal.
    pub fn to_retry_requirement(&self) -> (r: Option<RetryRequirement>)
        ensures
            r == (if self.input_spec().bound_spec() == Bound::Both {
                Option::<RetryRequirement>::None
            } else {
                self.retry_requirement_spec()
            }),
    {
        if self.input.is_bound() {
            None
        } else {
            self.retry_requirement
        }
    }

    /// Replaces the input with the wider `input` when the current one lies
    /// within it.
    pub fn update_input(&mut self, input: &MaybeString)
        ensures
            widen_ok(&old(self).input_spec(), input, &final(self).input_spec()),
            final(self).span_spec() == old(self).span_spec(),
            final(self).context_spec() == old(self).context_spec(),
            final(self).retry_requirement_spec() == old(self).retry_requirement_spec(),
            old(self).wf() && input.inv() ==> final(self).wf(),
    {
        proof {
            let cur = &self.input;
            if within(cur@, cur.start_offset(), input@, input.start_offset()) && self.wf() {
                lemma_within_trans(
                    self.span@,
                    self.span.start_offset(),
                    cur@,
                    cur.start_offset(),
                    input@,
                    input.start_offset(),
                );
            }
        }
        widen_input(&mut self.input, input);
    }

    /// Widens the input toward the outer scope's view; the context itself
    /// is kept only by errors that carry a chain.
    pub fn with_context<C: Context>(self, input: &MaybeString, context: &C) -> (r: ExpectedValid)
        ensures
            widen_ok(&self.input_spec(), input, &r.input_spec()),
            r.span_spec() == self.span_spec(),
            r.context_spec() == self.context_spec(),
            r.retry_requirement_spec() == self.retry_requirement_spec(),
            self.wf() && input.inv() ==> r.wf(),
    {
        let mut e = self;
        e.update_input(input);
        e
    }
}

/// One of the three structured error shapes.
#[derive(Debug)]
pub enum ExpectedInner {
    /// An exact value was expected in a context.
    Value(ExpectedValue),
    /// A valid value was expected in a context.
    Valid(ExpectedValid),
    /// A length was expected in a context.
    Length(ExpectedLength),
}

/// The detail common to every structured error, gathered in one place.
#[derive(Debug)]
pub struct ErrorDetails {
    /// The input the failure was observed in.
    pub input: MaybeString,
    /// The bytes observed at the failure site.
    pub span: Bytes,
    /// What the error is, in words.
    pub description: String,
}

/// A catch-all error wrapping any structured error shape together with a
/// context chain recording every scope the error passed through.
#[derive(Debug)]
pub struct Expected {
    pub(crate) inner: ExpectedInner,
    pub(crate) context: ContextChain,
}

impl Expected {
    /// The wrapped structured error.
    pub closed spec fn inner_spec(&self) -> ExpectedInner {
        self.inner
    }

    /// The context chain gathered so far.
    pub closed spec fn chain_spec(&self) -> ContextChain {
        self.context
    }

    /// The input the failure was observed in.
    pub open spec fn input_view(&self) -> MaybeString {
        match self.inner_spec() {
            ExpectedInner::Value(e) => e.input_spec(),
            ExpectedInner::Valid(e) => e.input_spec(),
            ExpectedInner::Length(e) => e.input_spec(),
        }
    }

    /// The bytes observed at the failure site.
    pub open spec fn span_view(&self) -> Bytes {
        match self.inner_spec() {
            ExpectedInner::Value(e) => e.span_spec(),
            ExpectedInner::Valid(e) => e.span_spec(),
            ExpectedInner::Length(e) => e.span_spec(),
        }
    }

    /// The span lies within the input, and the chain holds at least one
    /// context.
    pub open spec fn wf(&self) -> bool {
        &&& match self.inner_spec() {
            ExpectedInner::Value(e) => e.wf(),
            ExpectedInner::Valid(e) => e.wf(),
            ExpectedInner::Length(e) => e.wf(),
        }
        &&& self.chain_spec().inv()
    }

    /// Whether more input could not help, by the wrapped shape's own
    /// classification.
    pub open spec fn is_fatal_spec(&self) -> bool {
        match self.inner_spec() {
            ExpectedInner::Value(e) => e.is_fatal_spec(),
            ExpectedInner::Valid(e) => e.is_fatal_spec(),
            ExpectedInner::Length(e) => e.is_fatal_spec(),
        }
    }

    /// How many more bytes might change the outcome, by the wrapped
    /// shape's own classification; `None` when the failure is fatal or no
    /// shortfall exists.
    pub open spec fn retry_needed_spec(&self) -> Option<nat> {
        match self.inner_spec() {
            ExpectedInner::Value(e) => if e.is_fatal_spec() || e.value_spec().len()
                <= e.span_spec()@.len() {
                None
            } else {
                Some((e.value_spec().len() - e.span_spec()@.len()) as nat)
            },
            ExpectedInner::Length(e) => if e.is_fatal_spec() || e.min_spec()
                <= e.span_spec()@.len() {
                None
            } else {
                Some((e.min_spec() - e.span_spec()@.len()) as nat)
            },
            ExpectedInner::Valid(e) => if e.input_spec().bound_spec() == Bound::Both {
                None
            } else {
                match e.retry_requirement_spec() {
                    Some(rr) => Some(rr.needed_spec()),
                    None => None,
                }
            },
        }
    }

    /// Wraps a failed exact-value requirement, seeding the context chain
    /// from the error's own context.
    pub fn from_value(err: ExpectedValue) -> (r: Expected)
        ensures
            r.inner_spec() == ExpectedInner::Value(err),
            r.chain_spec().nodes_spec().len() == 1,
            r.chain_spec().outermost().operation@ == err.context_spec().operation@,
            r.chain_spec().outermost().expected matches Some(s) && s@
                == err.context_spec().expected@,
            err.wf() ==> r.wf(),
    {
        let context = ContextChain::new(&err.context());
        Expected { inner: ExpectedInner::Value(err), context }
    }

    /// Wraps semantically invalid content, seeding the context chain from
    /// the error's own context.
    pub fn from_valid(err: ExpectedValid) -> (r: Expected)
        ensures
            r.inner_spec() == ExpectedInner::Valid(err),
            r.chain_spec().nodes_spec().len() == 1,
            r.chain_spec().outermost().operation@ == err.context_spec().operation@,
            r.chain_spec().outermost().expected matches Some(s) && s@
                == err.context_spec().expected@,
            err.wf() ==> r.wf(),
    {
        let context = ContextChain::new(&err.context());
        Expected { inner: ExpectedInner::Valid(err), context }
    }

    /// Wraps a failed length requirement, seeding the context chain from
    /// the error's own context.
    pub fn from_length(err: ExpectedLength) -> (r: Expected)
        ensures
            r.inner_spec() == ExpectedInner::Length(err),
            r.chain_spec().nodes_spec().len() == 1,
            r.chain_spec().outermost().operation@ == err.context_spec().operation@,
            r.chain_spec().outermost().expected matches Some(s) && s@
                == err.context_spec().expected@,
            err.wf() ==> r.wf(),
    {
        let context = ContextChain::new(&err.context());
        Expected { inner: ExpectedInner::Length(err), context }
    }

    /// The wrapped structured error.
    pub fn inner(&self) -> (r: &ExpectedInner)
        ensures
            r == self.inner_spec(),
    {
        &self.inner
    }

    /// Returns an [`ErrorDisplay`] for formatting, rendered from the
    /// wrapped error's description.
    pub fn display(&self) -> (r: ErrorDisplay)
        ensures
            match self.inner_spec() {
                ExpectedInner::Value(_) => r.rendered_spec()
                    == "found a different value to the exact expected"@,
                ExpectedInner::Valid(e) => r.rendered_spec() == "invalid "@
                    + e.context_spec().expected@,
                ExpectedInner::Length(e) => r.rendered_spec() == "found "@ + byte_count_chars(
                    e.span_spec()@.len(),
                ) + " when "@ + length_requirement_chars(e.min_spec(), e.max_spec())
                    + " was expected"@,
            },
    {
        ErrorDisplay::new(self.description())
    }

    /// The common detail of the wrapped error: its input, span and
    /// description.
    pub fn details(&self) -> (r: ErrorDetails)
        ensures
            r.input.eqv(&self.input_view()),
            r.span.eqv(&self.span_view()),
    {
        ErrorDetails {
            input: self.input().clone(),
            span: self.span().clone(),
            description: self.description(),
        }
    }

    /// The input the failure was observed in.
    pub fn input(&self) -> (r: &MaybeString)
        ensures
            r == self.input_view(),
    {
        match &self.inner {
            ExpectedInner::Value(e) => e.input(),
            ExpectedInner::Valid(e) => e.input(),
            ExpectedInner::Length(e) => e.input(),
        }
    }

    /// The bytes observed at the failure site.
    pub fn span(&self) -> (r: &Bytes)
        ensures
            r == self.span_view(),
    {
        match &self.inner {
            ExpectedInner::Value(e) => e.span(),
            ExpectedInner::Valid(e) => e.span(),
            ExpectedInner::Length(e) => e.span(),
        }
    }

    /// The context chain gathered while the error escalated.
    pub fn context(&self) -> (r: &ContextChain)
        ensures
            r == self.chain_spec(),
    {
        &self.context
    }

    /// The input that was found, if the wrapped error retains one.
    pub fn found_value(&self) -> (r: Option<&MaybeString>)
        ensures
            r == Some(&self.input_view()),
    {
        match &self.inner {
            ExpectedInner::Value(e) => e.found_value(),
            ExpectedInner::Valid(e) => e.found_value(),
            ExpectedInner::Length(e) => e.found_value(),
        }
    }

    /// The value that was expected, if the wrapped error retains one.
    pub fn expected_value(&self) -> (r: Option<Bytes>)
        ensures
            match self.inner_spec() {
                ExpectedInner::Value(e) => r matches Some(b) && b@ == e.value_spec(),
                ExpectedInner::Valid(_) => r is None,
                ExpectedInner::Length(_) => r is None,
            },
    {
        match &self.inner {
            ExpectedInner::Value(e) => e.expected_value(),
            ExpectedInner::Valid(e) => e.expected_value(),
            ExpectedInner::Length(e) => e.expected_value(),
        }
    }

    /// What the wrapped error is, in words.
    pub fn description(&self) -> (r: String)
        ensures
            match self.inner_spec() {
                ExpectedInner::Value(_) => r@ == "found a different value to the exact expected"@,
                ExpectedInner::Valid(e) => r@ == "invalid "@ + e.context_spec().expected@,
                ExpectedInner::Length(e) => r@ == "found "@ + byte_count_chars(e.span_spec()@.len())
                    + " when "@ + length_requirement_chars(e.min_spec(), e.max_spec())
                    + " was expected"@,
            },
    {
        match &self.inner {
            ExpectedInner::Value(e) => e.description(),
            ExpectedInner::Valid(e) => e.description(),
            ExpectedInner::Length(e) => e.description(),
        }
    }

    /// Whether more input could not help.
    pub fn is_fatal(&self) -> (r: bool)
        ensures
            r == self.is_fatal_spec(),
    {
        match &self.inner {
            ExpectedInner::Value(e) => e.is_fatal(),
            ExpectedInner::Valid(e) => e.is_fatal(),
            ExpectedInner::Length(e) => e.is_fatal(),
        }
    }

    /// How many more bytes might change the outcome, by the wrapped
    /// shape's own classification.
    pub fn to_retry_requirement(&self) -> (r: Option<RetryRequirement>)
        ensures
            match r {
                Some(req) => self.retry_needed_spec() == Some(req.needed_spec()),
                None => self.retry_needed_spec() is None,
            },
    {
        match &self.inner {
            ExpectedInner::Value(e) => e.to_retry_requirement(),
            ExpectedInner::Valid(e) => e.to_retry_requirement(),
            ExpectedInner::Length(e) => e.to_retry_requirement(),
        }
    }

    /// Replaces the wrapped error's input with the wider `input` when the
    /// current one lies within it.
    pub fn update_input(&mut self, input: &MaybeString)
        ensures
            widen_ok(&old(self).input_view(), input, &final(self).input_view()),
            inner_widened(old(self), input, final(self)),
            final(self).span_view() == old(self).span_view(),
            final(self).chain_spec() == old(self).chain_spec(),
            old(self).wf() && input.inv() ==> final(self).wf(),
    {
        match &mut self.inner {
            ExpectedInner::Value(e) => e.update_input(input),
            ExpectedInner::Valid(e) => e.update_input(input),
            ExpectedInner::Length(e) => e.update_input(input),
        }
    }

    /// Widens the input toward the outer scope's view and pushes `context`
    /// as the new outermost node of the chain.
    pub fn with_context<C: Context>(self, input: &MaybeString, context: &C) -> (r: Expected)
        ensures
            widen_ok(&self.input_view(), input, &r.input_view()),
            inner_widened(&self, input, &r),
            r.span_view() == self.span_view(),
            r.chain_spec().nodes_spec().len() == self.chain_spec().nodes_spec().len() + 1,
            r.chain_spec().nodes_spec().subrange(0, self.chain_spec().nodes_spec().len() as int)
                == self.chain_spec().nodes_spec(),
            r.chain_spec().outermost().operation@ == context.operation_spec(),
            (match r.chain_spec().outermost().expected {
                Some(s) => context.expected_spec() == Some(s@),
                None => context.expected_spec() is None,
            }),
            self.wf() && input.inv() ==> r.wf(),
    {
        let Expected { inner, context: chain } = self;
        let chain = chain.with_parent(context);
        let mut e = Expected { inner, context: chain };
        e.update_input(input);
        e
    }
}

} // verus!
