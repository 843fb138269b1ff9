//! Splitting operations over byte views: by index, first token, an exact
//! prefix, and each one's erroring sibling that builds a structured error
//! tagged with the caller's operation.

use vstd::prelude::*;

use crate::bound::Bound;
use crate::bytes::{is_prefix, starts_with, within, Bytes};
use crate::context::ExpectedContext;
use crate::expected::{Expected, ExpectedInner, ExpectedLength, ExpectedValue, Value};
use crate::text::MaybeString;

verus! {

/// The shape of a length error as the splitting operations build it: the
/// requirement, the failure site, the input it was observed in, and the
/// operation that was attempted together with what it expected.
pub open spec fn is_length_error(
    e: Expected,
    min: nat,
    max: Option<usize>,
    span_bytes: Seq<u8>,
    span_start: nat,
    input_bytes: Seq<u8>,
    input_start: nat,
    bound: Bound,
    op: Seq<char>,
    exp: Seq<char>,
) -> bool {
    &&& e.inner_spec() matches ExpectedInner::Length(le)
    &&& {
        let le = e.inner_spec()->Length_0;
        &&& le.min_spec() == min
        &&& le.max_spec() == max
        &&& le.span_spec()@ == span_bytes
        &&& le.span_spec().start_offset() == span_start
        &&& le.input_spec()@ == input_bytes
        &&& le.input_spec().start_offset() == input_start
        &&& le.input_spec().bound_spec() == bound
        &&& le.context_spec().operation@ == op
        &&& le.context_spec().expected@ == exp
    }
    &&& e.chain_spec().nodes_spec().len() == 1
    &&& e.chain_spec().outermost().operation@ == op
    &&& e.chain_spec().outermost().expected matches Some(s) && s@ == exp
}

/// The shape of a wrong-value error as the splitting operations build it:
/// the expected bytes, the observed bytes, the input they were observed
/// in, and the operation that was attempted together with what it
/// expected.
pub open spec fn is_value_error(
    e: Expected,
    expected_bytes: Seq<u8>,
    span_bytes: Seq<u8>,
    span_start: nat,
    input_bytes: Seq<u8>,
    input_start: nat,
    bound: Bound,
    op: Seq<char>,
    exp: Seq<char>,
) -> bool {
    &&& e.inner_spec() matches ExpectedInner::Value(ve)
    &&& {
        let ve = e.inner_spec()->Value_0;
        &&& ve.value_spec() == expected_bytes
        &&& ve.span_spec()@ == span_bytes
        &&& ve.span_spec().start_offset() == span_start
        &&& ve.input_spec()@ == input_bytes
        &&& ve.input_spec().start_offset() == input_start
        &&& ve.input_spec().bound_spec() == bound
        &&& ve.context_spec().operation@ == op
        &&& ve.context_spec().expected@ == exp
    }
    &&& e.chain_spec().nodes_spec().len() == 1
    &&& e.chain_spec().outermost().operation@ == op
    &&& e.chain_spec().outermost().expected matches Some(s) && s@ == exp
}

/// Builds the length error of a failed split: the span is the part of the
/// input that was observed, the input the whole view being split.
pub(crate) fn make_length_error(
    min: usize,
    max: Option<usize>,
    span: Bytes,
    input: Bytes,
    operation: &'static str,
    expected: &'static str,
) -> (e: Expected)
    requires
        within(span@, span.start_offset(), input@, input.start_offset()),
        span.inv(),
        input.inv(),
    ensures
        is_length_error(
            e,
            min as nat,
            max,
            span@,
            span.start_offset(),
            input@,
            input.start_offset(),
            input.bound_spec(),
            operation@,
            expected@,
        ),
        e.wf(),
{
    Expected::from_length(
        ExpectedLength::new(
            min,
            max,
            span,
            MaybeString::Bytes(input),
            ExpectedContext { operation, expected },
        ),
    )
}

/// Builds the wrong-value error of a failed match: the span is the part
/// of the input that was compared, the input the whole view.
pub(crate) fn make_value_error(
    value: Value,
    span: Bytes,
    input: Bytes,
    operation: &'static str,
    expected: &'static str,
) -> (e: Expected)
    requires
        within(span@, span.start_offset(), input@, input.start_offset()),
        span.inv(),
        input.inv(),
    ensures
        is_value_error(
            e,
            value@,
            span@,
            span.start_offset(),
            input@,
            input.start_offset(),
            input.bound_spec(),
            operation@,
            expected@,
        ),
        e.wf(),
{
    Expected::from_value(
        ExpectedValue::new(
            value,
            span,
            MaybeString::Bytes(input),
            ExpectedContext { operation, expected },
        ),
    )
}

impl Bytes {
    /// Splits the view at byte index `mid`, or `None` when `mid` is out of
    /// range.
    pub fn split_at_opt(self, mid: usize) -> (r: Option<(Bytes, Bytes)>)
        requires
            self.inv(),
        ensures
            match r {
                Some((head, tail)) => {
                    &&& mid <= self@.len()
                    &&& head@ == self@.subrange(0, mid as int)
                    &&& tail@ == self@.subrange(mid as int, self@.len() as int)
                    &&& head.start_offset() == self.start_offset()
                    &&& tail.start_offset() == self.start_offset() + mid
                    &&& head.bound_spec() == self.bound_spec().close_end_spec()
                    &&& tail.bound_spec() == self.bound_spec()
                    &&& head.inv()
                    &&& tail.inv()
                },
                None => mid > self@.len(),
            },
    {
        if mid <= self.byte_len() {
            Some(self.split_at_byte_unchecked(mid))
        } else {
            None
        }
    }

    /// Splits the view at byte index `mid`, or errors with a length
    /// requirement of at least `mid` bytes when the view is shorter.
    pub fn split_at(self, mid: usize, operation: &'static str) -> (r: Result<
        (Bytes, Bytes),
        Expected,
    >)
        requires
            self.inv(),
        ensures
            match r {
                Ok((head, tail)) => {
                    &&& mid <= self@.len()
                    &&& head@ == self@.subrange(0, mid as int)
                    &&& tail@ == self@.subrange(mid as int, self@.len() as int)
                    &&& head.start_offset() == self.start_offset()
                    &&& tail.start_offset() == self.start_offset() + mid
                    &&& head.bound_spec() == self.bound_spec().close_end_spec()
                    &&& tail.bound_spec() == self.bound_spec()
                    &&& head.inv()
                    &&& tail.inv()
                },
                Err(e) => {
                    &&& mid > self@.len()
                    &&& is_length_error(
                        e,
                        mid as nat,
                        None,
                        self@,
                        self.start_offset(),
                        self@,
                        self.start_offset(),
                        self.bound_spec(),
                        operation@,
                        "enough input"@,
                    )
                    &&& e.wf()
                },
            },
    {
        if mid <= self.byte_len() {
            Ok(self.split_at_byte_unchecked(mid))
        } else {
            let span = self.clone();
            proof {
                crate::bytes::lemma_within_refl(self@, self.start_offset());
            }
            Err(make_length_error(mid, None, span, self, operation, "enough input"))
        }
    }

    /// Splits off the first byte, or `None` when the view is empty.
    pub fn split_first_opt(self) -> (r: Option<(u8, Bytes)>)
        requires
            self.inv(),
        ensures
            match r {
                Some((token, tail)) => {
                    &&& self@.len() > 0
                    &&& token == self@[0]
                    &&& tail@ == self@.subrange(1, self@.len() as int)
                    &&& tail.start_offset() == self.start_offset() + 1
                    &&& tail.bound_spec() == self.bound_spec()
                    &&& tail.inv()
                },
                None => self@.len() == 0,
            },
    {
        if self.byte_len() == 0 {
            None
        } else {
            let token = self.as_dangerous()[0];
            let (_, tail) = self.split_at_byte_unchecked(1);
            Some((token, tail))
        }
    }

    /// Splits off the first byte, or errors with a length requirement of
    /// at least one byte when the view is empty.
    pub fn split_first(self, operation: &'static str) -> (r: Result<(u8, Bytes), Expected>)
        requires
            self.inv(),
        ensures
            match r {
                Ok((token, tail)) => {
                    &&& self@.len() > 0
                    &&& token == self@[0]
                    &&& tail@ == self@.subrange(1, self@.len() as int)
                    &&& tail.start_offset() == self.start_offset() + 1
                    &&& tail.bound_spec() == self.bound_spec()
                    &&& tail.inv()
                },
                Err(e) => {
                    &&& self@.len() == 0
                    &&& is_length_error(
                        e,
                        1,
                        None,
                        self@,
                        self.start_offset(),
                        self@,
                        self.start_offset(),
                        self.bound_spec(),
                        operation@,
                        "enough input"@,
                    )
                    &&& e.wf()
                },
            },
    {
        if self.byte_len() == 0 {
            let span = self.clone();
            proof {
                crate::bytes::lemma_within_refl(self@, self.start_offset());
            }
            Err(make_length_error(1, None, span, self, operation, "enough input"))
        } else {
            let token = self.as_dangerous()[0];
            let (_, tail) = self.split_at_byte_unchecked(1);
            Ok((token, tail))
        }
    }

    /// Splits off `prefix` when the view starts with it; else hands the
    /// view back unchanged.
    pub fn split_prefix_opt(self, prefix: &[u8]) -> (r: (Option<Bytes>, Bytes))
        requires
            self.inv(),
        ensures
            match r.0 {
                Some(head) => {
                    &&& is_prefix(prefix@, self@)
                    &&& head@ == prefix@
                    &&& head.start_offset() == self.start_offset()
                    &&& head.bound_spec() == self.bound_spec().close_end_spec()
                    &&& head.inv()
                    &&& r.1@ == self@.subrange(prefix@.len() as int, self@.len() as int)
                    &&& r.1.start_offset() == self.start_offset() + prefix@.len()
                    &&& r.1.bound_spec() == self.bound_spec()
                    &&& r.1.inv()
                },
                None => {
                    &&& !is_prefix(prefix@, self@)
                    &&& r.1.eqv(&self)
                    &&& r.1.inv()
                },
            },
    {
        if starts_with(self.as_dangerous(), prefix) {
            let (head, tail) = self.split_at_byte_unchecked(prefix.len());
            proof {
                assert(head@ =~= prefix@);
            }
            (Some(head), tail)
        } else {
            (None, self)
        }
    }

    /// Splits off `prefix`, or errors with a wrong-value error whose span
    /// is the part of the view that was compared against it.
    pub fn split_prefix(self, prefix: &[u8], operation: &'static str) -> (r: Result<
        (Bytes, Bytes),
        Expected,
    >)
        requires
            self.inv(),
        ensures
            match r {
                Ok((head, tail)) => {
                    &&& is_prefix(prefix@, self@)
                    &&& head@ == prefix@
                    &&& head.start_offset() == self.start_offset()
                    &&& head.bound_spec() == self.bound_spec().close_end_spec()
                    &&& head.inv()
                    &&& tail@ == self@.subrange(prefix@.len() as int, self@.len() as int)
                    &&& tail.start_offset() == self.start_offset() + prefix@.len()
                    &&& tail.bound_spec() == self.bound_spec()
                    &&& tail.inv()
                },
                Err(e) => {
                    &&& !is_prefix(prefix@, self@)
                    &&& is_value_error(
                        e,
                        prefix@,
                        self@.subrange(
                            0,
                            if prefix@.len() <= self@.len() {
                                prefix@.len() as int
                            } else {
                                self@.len() as int
                            },
                        ),
                        self.start_offset(),
                        self@,
                        self.start_offset(),
                        self.bound_spec(),
                        operation@,
                        "exact value"@,
                    )
                    &&& e.wf()
                },
            },
    {
        if starts_with(self.as_dangerous(), prefix) {
            let (head, tail) = self.split_at_byte_unchecked(prefix.len());
            proof {
                assert(head@ =~= prefix@);
            }
            Ok((head, tail))
        } else {
            let prefix_len = prefix.len();
            let n = self.byte_len();
            let span_len = if prefix_len <= n {
                prefix_len
            } else {
                n
            };
            let (span, _) = self.clone().split_at_byte_unchecked(span_len);
            let value = Value::Bytes(vstd::slice::slice_to_vec(prefix));
            Err(make_value_error(value, span, self, operation, "exact value"))
        }
    }
}

impl Bytes {
    /// Splits the view before the first match of `pattern`, or `None`
    /// when it matches nowhere.
    pub fn split_until_opt<P: crate::pattern::Pattern>(self, pattern: &P) -> (r: Option<
        (Bytes, Bytes),
    >)
        requires
            self.inv(),
        ensures
            match r {
                Some((head, tail)) => {
                    &&& head@.len() <= self@.len()
                    &&& pattern.is_match_at(self@, head@.len() as int)
                    &&& forall|j: int| 0 <= j < head@.len() ==> !pattern.is_match_at(self@, j)
                    &&& head@ == self@.subrange(0, head@.len() as int)
                    &&& tail@ == self@.subrange(head@.len() as int, self@.len() as int)
                    &&& head.start_offset() == self.start_offset()
                    &&& tail.start_offset() == self.start_offset() + head@.len()
                    &&& head.bound_spec() == self.bound_spec().close_end_spec()
                    &&& tail.bound_spec() == self.bound_spec()
                    &&& head.inv()
                    &&& tail.inv()
                },
                None => forall|j: int| 0 <= j <= self@.len() ==> !pattern.is_match_at(self@, j),
            },
    {
        match pattern.find_match(&self) {
            Some((index, _)) => Some(self.split_at_byte_unchecked(index)),
            None => None,
        }
    }

    /// Splits the view before the first match of `pattern`, or errors
    /// with a wrong-value error when it matches nowhere.
    pub fn split_until<P: crate::pattern::Pattern>(self, pattern: &P, operation: &'static str) -> (r:
        Result<(Bytes, Bytes), Expected>)
        requires
            self.inv(),
        ensures
            match r {
                Ok((head, tail)) => {
                    &&& head@.len() <= self@.len()
                    &&& pattern.is_match_at(self@, head@.len() as int)
                    &&& forall|j: int| 0 <= j < head@.len() ==> !pattern.is_match_at(self@, j)
                    &&& head@ == self@.subrange(0, head@.len() as int)
                    &&& tail@ == self@.subrange(head@.len() as int, self@.len() as int)
                    &&& head.start_offset() == self.start_offset()
                    &&& tail.start_offset() == self.start_offset() + head@.len()
                    &&& head.bound_spec() == self.bound_spec().close_end_spec()
                    &&& tail.bound_spec() == self.bound_spec()
                    &&& head.inv()
                    &&& tail.inv()
                },
                Err(e) => {
                    &&& forall|j: int| 0 <= j <= self@.len() ==> !pattern.is_match_at(self@, j)
                    &&& is_value_error(
                        e,
                        pattern.value_spec(),
                        self@,
                        self.start_offset(),
                        self@,
                        self.start_offset(),
                        self.bound_spec(),
                        operation@,
                        "pattern match"@,
                    )
                    &&& e.wf()
                },
            },
    {
        match pattern.find_match(&self) {
            Some((index, _)) => Ok(self.split_at_byte_unchecked(index)),
            None => {
                let span = self.clone();
                proof {
                    crate::bytes::lemma_within_refl(self@, self.start_offset());
                }
                Err(make_value_error(pattern.to_value(), span, self, operation, "pattern match"))
            },
        }
    }

    /// Splits the view before the first match of `pattern` and drops the
    /// match itself from the remainder, or `None` when it matches
    /// nowhere.
    pub fn split_until_consume_opt<P: crate::pattern::Pattern>(self, pattern: &P) -> (r: Option<
        (Bytes, Bytes),
    >)
        requires
            self.inv(),
        ensures
            match r {
                Some((head, tail)) => {
                    &&& head@.len() + pattern.match_len_at(self@, head@.len() as int)
                        <= self@.len()
                    &&& pattern.is_match_at(self@, head@.len() as int)
                    &&& forall|j: int| 0 <= j < head@.len() ==> !pattern.is_match_at(self@, j)
                    &&& head@ == self@.subrange(0, head@.len() as int)
                    &&& tail@ == self@.subrange(
                        (head@.len() + pattern.match_len_at(self@, head@.len() as int)) as int,
                        self@.len() as int,
                    )
                    &&& head.start_offset() == self.start_offset()
                    &&& tail.start_offset() == self.start_offset() + head@.len()
                        + pattern.match_len_at(self@, head@.len() as int)
                    &&& head.bound_spec() == self.bound_spec().close_end_spec()
                    &&& tail.bound_spec() == self.bound_spec()
                    &&& head.inv()
                    &&& tail.inv()
                },
                None => forall|j: int| 0 <= j <= self@.len() ==> !pattern.is_match_at(self@, j),
            },
    {
        match pattern.find_match(&self) {
            Some((index, len)) => {
                let ghost whole = self@;
                let (head, rest) = self.split_at_byte_unchecked(index);
                let (_, tail) = rest.split_at_byte_unchecked(len);
                proof {
                    assert(tail@ =~= whole.subrange(index + len, whole.len() as int));
                }
                Some((head, tail))
            },
            None => None,
        }
    }

    /// Splits the view before the first match of `pattern` and drops the
    /// match itself from the remainder, or errors with a wrong-value
    /// error when it matches nowhere.
    pub fn split_until_consume<P: crate::pattern::Pattern>(
        self,
        pattern: &P,
        operation: &'static str,
    ) -> (r: Result<(Bytes, Bytes), Expected>)
        requires
            self.inv(),
        ensures
            match r {
                Ok((head, tail)) => {
                    &&& head@.len() + pattern.match_len_at(self@, head@.len() as int)
                        <= self@.len()
                    &&& pattern.is_match_at(self@, head@.len() as int)
                    &&& forall|j: int| 0 <= j < head@.len() ==> !pattern.is_match_at(self@, j)
                    &&& head@ == self@.subrange(0, head@.len() as int)
                    &&& tail@ == self@.subrange(
                        (head@.len() + pattern.match_len_at(self@, head@.len() as int)) as int,
                        self@.len() as int,
                    )
                    &&& head.start_offset() == self.start_offset()
                    &&& tail.start_offset() == self.start_offset() + head@.len()
                        + pattern.match_len_at(self@, head@.len() as int)
                    &&& head.bound_spec() == self.bound_spec().close_end_spec()
                    &&& tail.bound_spec() == self.bound_spec()
                    &&& head.inv()
                    &&& tail.inv()
                },
                Err(e) => {
                    &&& forall|j: int| 0 <= j <= self@.len() ==> !pattern.is_match_at(self@, j)
                    &&& is_value_error(
                        e,
                        pattern.value_spec(),
                        self@,
                        self.start_offset(),
                        self@,
                        self.start_offset(),
                        self.bound_spec(),
                        operation@,
                        "pattern match"@,
                    )
                    &&& e.wf()
                },
            },
    {
        match self.clone().split_until_consume_opt(pattern) {
            Some((head, tail)) => Ok((head, tail)),
            None => {
                let span = self.clone();
                proof {
                    crate::bytes::lemma_within_refl(self@, self.start_offset());
                }
                Err(make_value_error(pattern.to_value(), span, self, operation, "pattern match"))
            },
        }
    }

    /// Splits the view at the first token `pattern` does not cover, or
    /// `None` when it covers every token.
    pub fn split_while_opt<P: crate::pattern::Pattern>(self, pattern: &P) -> (r: Option<
        (Bytes, Bytes),
    >)
        requires
            self.inv(),
        ensures
            match r {
                Some((head, tail)) => {
                    &&& head@.len() <= self@.len()
                    &&& pattern.is_reject_at(self@, head@.len() as int)
                    &&& forall|j: int| 0 <= j < head@.len() ==> !pattern.is_reject_at(self@, j)
                    &&& head@ == self@.subrange(0, head@.len() as int)
                    &&& tail@ == self@.subrange(head@.len() as int, self@.len() as int)
                    &&& head.start_offset() == self.start_offset()
                    &&& tail.start_offset() == self.start_offset() + head@.len()
                    &&& head.bound_spec() == self.bound_spec().close_end_spec()
                    &&& tail.bound_spec() == self.bound_spec()
                    &&& head.inv()
                    &&& tail.inv()
                },
                None => forall|j: int| 0 <= j <= self@.len() ==> !pattern.is_reject_at(self@, j),
            },
    {
        match pattern.find_reject(&self) {
            Some(index) => Some(self.split_at_byte_unchecked(index)),
            None => None,
        }
    }

    /// Splits the view at the first byte for which `f` answers `false`;
    /// an error of `f` escapes with this operation's context pushed on.
    pub fn try_split_while<F: Fn(u8) -> Result<bool, Expected>>(
        self,
        f: &F,
        operation: &'static str,
    ) -> (r: Result<(Bytes, Bytes), Expected>)
        requires
            self.inv(),
            forall|b: u8| #[trigger] call_requires(*f, (b,)),
        ensures
            match r {
                Ok((head, tail)) => {
                    &&& head@.len() <= self@.len()
                    &&& forall|j: int|
                        0 <= j < head@.len() ==> call_ensures(*f, (self@[j],), Ok(true))
                    &&& (head@.len() < self@.len() ==> call_ensures(
                        *f,
                        (self@[head@.len() as int],),
                        Ok(false),
                    ))
                    &&& head@ == self@.subrange(0, head@.len() as int)
                    &&& tail@ == self@.subrange(head@.len() as int, self@.len() as int)
                    &&& head.start_offset() == self.start_offset()
                    &&& tail.start_offset() == self.start_offset() + head@.len()
                    &&& tail.bound_spec() == self.bound_spec()
                    &&& (head@.len() < self@.len() ==> head.bound_spec()
                        == self.bound_spec().close_end_spec())
                    &&& (head@.len() == self@.len() ==> head.bound_spec() == self.bound_spec())
                    &&& head.inv()
                    &&& tail.inv()
                },
                Err(e) => exists|j: int, e0: Expected|
                    {
                        &&& 0 <= j < self@.len()
                        &&& #[trigger] call_ensures(*f, (self@[j],), Err(e0))
                        &&& e.span_view() == e0.span_view()
                        &&& e.chain_spec().nodes_spec().len() == e0.chain_spec().nodes_spec().len()
                            + 1
                        &&& e.chain_spec().outermost().operation@ == operation@
                    },
            },
    {
        let n = self.byte_len();
        let mut i: usize = 0;
        while i < n
            invariant
                0 <= i <= n,
                n == self@.len(),
                self.inv(),
                forall|b: u8| #[trigger] call_requires(*f, (b,)),
                forall|j: int| 0 <= j < i ==> call_ensures(*f, (self@[j],), Ok(true)),
            decreases n - i,
        {
            let token = self.as_dangerous()[i];
            match f(token) {
                Ok(true) => {
                    i += 1;
                },
                Ok(false) => {
                    let (head, tail) = self.split_at_byte_unchecked(i);
                    return Ok((head, tail));
                },
                Err(e0) => {
                    let ghost e0_spec = e0;
                    let outer = MaybeString::Bytes(self.clone());
                    let e = e0.with_context(
                        &outer,
                        &crate::context::OperationContext(operation),
                    );
                    proof {
                        assert(call_ensures(*f, (self@[i as int],), Err(e0_spec)));
                    }
                    return Err(e);
                },
            }
        }
        let end = self.end();
        let whole = self;
        proof {
            assert(whole@ =~= whole@.subrange(0, whole@.len() as int));
            assert(end@ =~= whole@.subrange(whole@.len() as int, whole@.len() as int));
        }
        Ok((whole, end))
    }
}

} // verus!
