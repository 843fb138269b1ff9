//! The transactional cursor over an input: every primitive that can fail
//! commits its advance only on success, and scopes annotate escaping
//! errors with context.

use vstd::prelude::*;

use vstd::utf8::{partial_valid_utf8, partial_valid_utf8_extend, valid_utf8};

use crate::bound::Bound;
use crate::bytes::{is_prefix, within, Bytes};
use crate::context::{Context, ExpectedContext, OperationContext};
use crate::expected::{widen_ok, Expected, ExpectedInner, ExpectedValid};
use crate::retry::RetryRequirement;
use crate::split::{is_length_error, make_length_error};
use crate::string::{char_len_utf8, first_codepoint, utf8_char_len, utf8_is_cont_byte};
use crate::text::MaybeString;

verus! {

/// The shape of an invalid-content error as the reader builds it: the
/// failure site, the input it was observed in, the operation and
/// expectation, and the retry classification.
pub open spec fn is_valid_error(
    e: Expected,
    span_bytes: Seq<u8>,
    span_start: nat,
    input_bytes: Seq<u8>,
    input_start: nat,
    bound: Bound,
    op: Seq<char>,
    exp: Seq<char>,
    retry: Option<RetryRequirement>,
) -> bool {
    &&& e.inner_spec() matches ExpectedInner::Valid(ve)
    &&& {
        let ve = e.inner_spec()->Valid_0;
        &&& ve.span_spec()@ == span_bytes
        &&& ve.span_spec().start_offset() == span_start
        &&& ve.input_spec()@ == input_bytes
        &&& ve.input_spec().start_offset() == input_start
        &&& ve.input_spec().bound_spec() == bound
        &&& ve.context_spec().operation@ == op
        &&& ve.context_spec().expected@ == exp
        &&& ve.retry_requirement_spec() == retry
    }
    &&& e.chain_spec().nodes_spec().len() == 1
    &&& e.chain_spec().outermost().operation@ == op
    &&& e.chain_spec().outermost().expected matches Some(s) && s@ == exp
}

/// Builds the invalid-content error of a failed validation.
pub(crate) fn make_valid_error(
    span: Bytes,
    input: Bytes,
    operation: &'static str,
    expected: &'static str,
    retry_requirement: Option<RetryRequirement>,
) -> (e: Expected)
    requires
        within(span@, span.start_offset(), input@, input.start_offset()),
        span.inv(),
        input.inv(),
    ensures
        is_valid_error(
            e,
            span@,
            span.start_offset(),
            input@,
            input.start_offset(),
            input.bound_spec(),
            operation@,
            expected@,
            retry_requirement,
        ),
        e.wf(),
{
    Expected::from_valid(
        ExpectedValid::new(
            span,
            MaybeString::Bytes(input),
            ExpectedContext { operation, expected },
            retry_requirement,
        ),
    )
}

/// What holds of an error `e` that escaped a scope around `f`: some error
/// `e0` of `f` was kept whole — its shape, span, detail and seeded
/// context unchanged — except that its input was widened to the scope's
/// entry input, and the scope's context was pushed as the outermost node
/// of its chain.
pub open spec fn contexted_from<T, F: FnOnce(Reader) -> (Reader, Result<T, Expected>)>(
    f: F,
    entry: Reader,
    rd: Reader,
    e: Expected,
    op: Seq<char>,
    exp: Option<Seq<char>>,
) -> bool {
    exists|e0: Expected|
        {
            &&& #[trigger] call_ensures(f, (entry,), (rd, Err(e0)))
            &&& widen_ok(
                &e0.input_view(),
                &MaybeString::Bytes(entry.input_spec()),
                &e.input_view(),
            )
            &&& crate::expected::inner_widened(
                &e0,
                &MaybeString::Bytes(entry.input_spec()),
                &e,
            )
            &&& e.span_view() == e0.span_view()
            &&& e.chain_spec().nodes_spec().len() == e0.chain_spec().nodes_spec().len() + 1
            &&& e.chain_spec().nodes_spec().subrange(
                0,
                e0.chain_spec().nodes_spec().len() as int,
            ) == e0.chain_spec().nodes_spec()
            &&& e.chain_spec().outermost().operation@ == op
            &&& (match e.chain_spec().outermost().expected {
                Some(s) => exp == Some(s@),
                None => exp is None,
            })
            &&& (e0.wf() ==> e.wf())
        }
}

/// A cursor over one input. All advances are transactional: a primitive
/// that fails leaves the cursor exactly where it was.
#[derive(Debug)]
pub struct Reader {
    input: Bytes,
}

impl Reader {
    /// The input left to consume.
    pub closed spec fn input_spec(&self) -> Bytes {
        self.input
    }

    /// The cursor's input is well formed.
    pub open spec fn inv(&self) -> bool {
        self.input_spec().inv()
    }

    /// A cursor over all of `input`.
    pub fn new(input: Bytes) -> (r: Reader)
        ensures
            r.input_spec() == input,
    {
        Reader { input }
    }

    /// The input left to consume, borrowed.
    pub(crate) fn input_ref(&self) -> (r: &Bytes)
        ensures
            r == self.input_spec(),
    {
        &self.input
    }

    /// Replaces the input left to consume.
    pub(crate) fn set_input(&mut self, input: Bytes)
        ensures
            final(self).input_spec() == input,
    {
        self.input = input;
    }

    /// True when no input is left.
    pub fn at_end(&self) -> (r: bool)
        ensures
            r == (self.input_spec()@.len() == 0),
    {
        self.input.is_empty()
    }

    /// How many bytes are left.
    pub fn remaining(&self) -> (r: usize)
        ensures
            r == self.input_spec()@.len(),
    {
        self.input.byte_len()
    }

    /// Drains the rest of the input, leaving the cursor at its end.
    pub fn take_remaining(&mut self) -> (r: Bytes)
        requires
            old(self).inv(),
        ensures
            r == old(self).input_spec(),
            final(self).input_spec()@.len() == 0,
            final(self).input_spec().start_offset() == old(self).input_spec().end_offset(),
            final(self).input_spec().bound_spec() == old(self).input_spec().bound_spec(),
            final(self).inv(),
    {
        let mut rest = self.input.end();
        core::mem::swap(&mut self.input, &mut rest);
        rest
    }

    /// A view of the first `n` bytes without advancing, or a length error
    /// when fewer are left.
    pub fn peek(&self, n: usize) -> (r: Result<Bytes, Expected>)
        requires
            self.inv(),
        ensures
            match r {
                Ok(head) => {
                    &&& n <= self.input_spec()@.len()
                    &&& head@ == self.input_spec()@.subrange(0, n as int)
                    &&& head.start_offset() == self.input_spec().start_offset()
                    &&& head.bound_spec() == self.input_spec().bound_spec().close_end_spec()
                    &&& head.inv()
                },
                Err(e) => {
                    &&& n > self.input_spec()@.len()
                    &&& is_length_error(
                        e,
                        n as nat,
                        None,
                        self.input_spec()@,
                        self.input_spec().start_offset(),
                        self.input_spec()@,
                        self.input_spec().start_offset(),
                        self.input_spec().bound_spec(),
                        "peek"@,
                        "enough input"@,
                    )
                    &&& e.wf()
                },
            },
    {
        match self.input.clone().split_at(n, "peek") {
            Ok((head, _)) => Ok(head),
            Err(e) => Err(e),
        }
    }

    /// A view of the first `n` bytes without advancing, or `None` when
    /// fewer are left.
    pub fn peek_opt(&self, n: usize) -> (r: Option<Bytes>)
        requires
            self.inv(),
        ensures
            match r {
                Some(head) => {
                    &&& n <= self.input_spec()@.len()
                    &&& head@ == self.input_spec()@.subrange(0, n as int)
                    &&& head.start_offset() == self.input_spec().start_offset()
                    &&& head.bound_spec() == self.input_spec().bound_spec().close_end_spec()
                    &&& head.inv()
                },
                None => n > self.input_spec()@.len(),
            },
    {
        match self.input.clone().split_at_opt(n) {
            Some((head, _)) => Some(head),
            None => None,
        }
    }

    /// Advances over the first `n` bytes and returns them, or errors with
    /// a length requirement, leaving the cursor unmoved.
    pub fn take(&mut self, n: usize) -> (r: Result<Bytes, Expected>)
        requires
            old(self).inv(),
        ensures
            final(self).inv(),
            match r {
                Ok(head) => {
                    &&& n <= old(self).input_spec()@.len()
                    &&& head@ == old(self).input_spec()@.subrange(0, n as int)
                    &&& head.start_offset() == old(self).input_spec().start_offset()
                    &&& head.bound_spec() == old(
                        self,
                    ).input_spec().bound_spec().close_end_spec()
                    &&& head.inv()
                    &&& final(self).input_spec()@ == old(self).input_spec()@.subrange(
                        n as int,
                        old(self).input_spec()@.len() as int,
                    )
                    &&& final(self).input_spec().start_offset() == old(
                        self,
                    ).input_spec().start_offset() + n
                    &&& final(self).input_spec().bound_spec() == old(
                        self,
                    ).input_spec().bound_spec()
                },
                Err(e) => {
                    &&& n > old(self).input_spec()@.len()
                    &&& *final(self) == *old(self)
                    &&& is_length_error(
                        e,
                        n as nat,
                        None,
                        old(self).input_spec()@,
                        old(self).input_spec().start_offset(),
                        old(self).input_spec()@,
                        old(self).input_spec().start_offset(),
                        old(self).input_spec().bound_spec(),
                        "take"@,
                        "enough input"@,
                    )
                    &&& e.wf()
                },
            },
    {
        match self.input.clone().split_at(n, "take") {
            Ok((head, tail)) => {
                self.input = tail;
                Ok(head)
            },
            Err(e) => Err(e),
        }
    }

    /// Advances over the first `n` bytes and discards them, or errors with
    /// a length requirement, leaving the cursor unmoved.
    pub fn skip(&mut self, n: usize) -> (r: Result<(), Expected>)
        requires
            old(self).inv(),
        ensures
            final(self).inv(),
            match r {
                Ok(_) => {
                    &&& n <= old(self).input_spec()@.len()
                    &&& final(self).input_spec()@ == old(self).input_spec()@.subrange(
                        n as int,
                        old(self).input_spec()@.len() as int,
                    )
                    &&& final(self).input_spec().start_offset() == old(
                        self,
                    ).input_spec().start_offset() + n
                    &&& final(self).input_spec().bound_spec() == old(
                        self,
                    ).input_spec().bound_spec()
                },
                Err(e) => {
                    &&& n > old(self).input_spec()@.len()
                    &&& *final(self) == *old(self)
                    &&& is_length_error(
                        e,
                        n as nat,
                        None,
                        old(self).input_spec()@,
                        old(self).input_spec().start_offset(),
                        old(self).input_spec()@,
                        old(self).input_spec().start_offset(),
                        old(self).input_spec().bound_spec(),
                        "skip"@,
                        "enough input"@,
                    )
                    &&& e.wf()
                },
            },
    {
        match self.input.clone().split_at(n, "skip") {
            Ok((_, tail)) => {
                self.input = tail;
                Ok(())
            },
            Err(e) => Err(e),
        }
    }

    /// Advances over `bytes` when the input starts with it, or errors with
    /// a wrong-value error, leaving the cursor unmoved.
    pub fn consume(&mut self, bytes: &[u8]) -> (r: Result<(), Expected>)
        requires
            old(self).inv(),
        ensures
            final(self).inv(),
            match r {
                Ok(_) => {
                    &&& is_prefix(bytes@, old(self).input_spec()@)
                    &&& final(self).input_spec()@ == old(self).input_spec()@.subrange(
                        bytes@.len() as int,
                        old(self).input_spec()@.len() as int,
                    )
                    &&& final(self).input_spec().start_offset() == old(
                        self,
                    ).input_spec().start_offset() + bytes@.len()
                    &&& final(self).input_spec().bound_spec() == old(
                        self,
                    ).input_spec().bound_spec()
                },
                Err(e) => {
                    &&& !is_prefix(bytes@, old(self).input_spec()@)
                    &&& *final(self) == *old(self)
                    &&& crate::split::is_value_error(
                        e,
                        bytes@,
                        old(self).input_spec()@.subrange(
                            0,
                            if bytes@.len() <= old(self).input_spec()@.len() {
                                bytes@.len() as int
                            } else {
                                old(self).input_spec()@.len() as int
                            },
                        ),
                        old(self).input_spec().start_offset(),
                        old(self).input_spec()@,
                        old(self).input_spec().start_offset(),
                        old(self).input_spec().bound_spec(),
                        "consume"@,
                        "exact value"@,
                    )
                    &&& e.wf()
                },
            },
    {
        match self.input.clone().split_prefix(bytes, "consume") {
            Ok((_, tail)) => {
                self.input = tail;
                Ok(())
            },
            Err(e) => Err(e),
        }
    }

    /// Advances over `bytes` when the input starts with it; says whether
    /// it did, and never allocates an error.
    pub fn consume_opt(&mut self, bytes: &[u8]) -> (r: bool)
        requires
            old(self).inv(),
        ensures
            final(self).inv(),
            r == is_prefix(bytes@, old(self).input_spec()@),
            r ==> final(self).input_spec()@ == old(self).input_spec()@.subrange(
                bytes@.len() as int,
                old(self).input_spec()@.len() as int,
            ) && final(self).input_spec().start_offset() == old(self).input_spec().start_offset()
                + bytes@.len() && final(self).input_spec().bound_spec() == old(
                self,
            ).input_spec().bound_spec(),
            !r ==> *final(self) == *old(self),
    {
        let (head, tail) = self.input.clone().split_prefix_opt(bytes);
        match head {
            Some(_) => {
                self.input = tail;
                true
            },
            None => false,
        }
    }

    /// Reads one byte, or errors with a length requirement, leaving the
    /// cursor unmoved.
    pub fn read_u8(&mut self) -> (r: Result<u8, Expected>)
        requires
            old(self).inv(),
        ensures
            final(self).inv(),
            match r {
                Ok(b) => {
                    &&& old(self).input_spec()@.len() > 0
                    &&& b == old(self).input_spec()@[0]
                    &&& final(self).input_spec()@ == old(self).input_spec()@.subrange(
                        1,
                        old(self).input_spec()@.len() as int,
                    )
                    &&& final(self).input_spec().start_offset() == old(
                        self,
                    ).input_spec().start_offset() + 1
                    &&& final(self).input_spec().bound_spec() == old(
                        self,
                    ).input_spec().bound_spec()
                },
                Err(e) => {
                    &&& old(self).input_spec()@.len() == 0
                    &&& *final(self) == *old(self)
                    &&& is_length_error(
                        e,
                        1,
                        None,
                        old(self).input_spec()@,
                        old(self).input_spec().start_offset(),
                        old(self).input_spec()@,
                        old(self).input_spec().start_offset(),
                        old(self).input_spec().bound_spec(),
                        "read u8"@,
                        "enough input"@,
                    )
                    &&& e.wf()
                },
            },
    {
        match self.input.clone().split_first("read u8") {
            Ok((b, tail)) => {
                self.input = tail;
                Ok(b)
            },
            Err(e) => Err(e),
        }
    }

    /// Reads one byte as a signed integer, or errors with a length
    /// requirement, leaving the cursor unmoved.
    pub fn read_i8(&mut self) -> (r: Result<i8, Expected>)
        requires
            old(self).inv(),
        ensures
            final(self).inv(),
            match r {
                Ok(b) => {
                    &&& old(self).input_spec()@.len() > 0
                    &&& b == old(self).input_spec()@[0] as i8
                    &&& final(self).input_spec()@ == old(self).input_spec()@.subrange(
                        1,
                        old(self).input_spec()@.len() as int,
                    )
                    &&& final(self).input_spec().start_offset() == old(
                        self,
                    ).input_spec().start_offset() + 1
                    &&& final(self).input_spec().bound_spec() == old(
                        self,
                    ).input_spec().bound_spec()
                },
                Err(e) => {
                    &&& old(self).input_spec()@.len() == 0
                    &&& *final(self) == *old(self)
                    &&& is_length_error(
                        e,
                        1,
                        None,
                        old(self).input_spec()@,
                        old(self).input_spec().start_offset(),
                        old(self).input_spec()@,
                        old(self).input_spec().start_offset(),
                        old(self).input_spec().bound_spec(),
                        "read i8"@,
                        "enough input"@,
                    )
                    &&& e.wf()
                },
            },
    {
        match self.input.clone().split_first("read i8") {
            Ok((b, tail)) => {
                self.input = tail;
                Ok(b as i8)
            },
            Err(e) => Err(e),
        }
    }

    /// Runs `f` on the cursor; when it fails, widens the error's input to
    /// the view at entry and pushes `ctx` as the outermost context.
    ///
    /// Transactionality is preserved: the returned cursor reflects the
    /// last successful commit inside `f`.
    pub fn context<T, C: Context, F: FnOnce(Reader) -> (Reader, Result<T, Expected>)>(
        self,
        ctx: &C,
        f: F,
    ) -> (r: (Reader, Result<T, Expected>))
        requires
            self.inv(),
            call_requires(f, (self,)),
        ensures
            r.1 matches Ok(t) ==> call_ensures(f, (self,), (r.0, Ok(t))),
            r.1 matches Err(e) ==> contexted_from(
                f,
                self,
                r.0,
                e,
                ctx.operation_spec(),
                ctx.expected_spec(),
            ),
    {
        let entry = self.input.clone();
        let ghost entry_spec = self.input_spec();
        let (rd, res) = f(self);
        match res {
            Ok(t) => {
                return (rd, Ok(t));
            },
            Err(e0) => {
                let ghost e0_spec = e0;
                let outer = MaybeString::Bytes(entry);
                let e = e0.with_context(&outer, ctx);
                proof {
                    assert(call_ensures(f, (self, ), (rd, Err(e0_spec))));
                    assert(widen_ok(
                        &e0_spec.input_view(),
                        &MaybeString::Bytes(entry_spec),
                        &e.input_view(),
                    ));
                    assert(e.span_view() == e0_spec.span_view());
                    assert(e.chain_spec().nodes_spec().len() == e0_spec.chain_spec().nodes_spec().len() + 1);
                    assert(e.chain_spec().nodes_spec().subrange(
                        0,
                        e0_spec.chain_spec().nodes_spec().len() as int,
                    ) == e0_spec.chain_spec().nodes_spec());
                    assert(e.chain_spec().outermost().operation@ == ctx.operation_spec());
                    assert(e0_spec.wf() ==> e.wf());
                    assert(exists|e0: Expected|
                        {
                            &&& #[trigger] call_ensures(f, (self,), (rd, Err(e0)))
                            &&& widen_ok(
                                &e0.input_view(),
                                &MaybeString::Bytes(self.input_spec()),
                                &e.input_view(),
                            )
                            &&& e.span_view() == e0.span_view()
                            &&& e.chain_spec().nodes_spec().len()
                                == e0.chain_spec().nodes_spec().len() + 1
                            &&& e.chain_spec().nodes_spec().subrange(
                                0,
                                e0.chain_spec().nodes_spec().len() as int,
                            ) == e0.chain_spec().nodes_spec()
                            &&& e.chain_spec().outermost().operation@ == ctx.operation_spec()
                            &&& (e0.wf() ==> e.wf())
                        });
                }
                return (rd, Err(e));
            },
        }
    }

    /// Runs `f` on the cursor; when it fails, restores the cursor to its
    /// state at entry and reports no value.
    pub fn recover<T, F: FnOnce(Reader) -> (Reader, Result<T, Expected>)>(self, f: F) -> (r: (
        Reader,
        Option<T>,
    ))
        requires
            self.inv(),
            call_requires(f, (self,)),
        ensures
            r.1 matches Some(t) ==> call_ensures(f, (self,), (r.0, Ok(t))),
            r.1 is None ==> {
                &&& r.0.input_spec().eqv(&self.input_spec())
                &&& r.0.inv()
                &&& exists|rd0: Reader, e0: Expected|
                    #[trigger] call_ensures(f, (self,), (rd0, Err(e0)))
            },
    {
        let entry = self.input.clone();
        let (rd, res) = f(self);
        match res {
            Ok(t) => (rd, Some(t)),
            Err(_) => (Reader { input: entry }, None),
        }
    }

    /// Runs `f` on the cursor; a failure for which `pred` holds restores
    /// the cursor and reports no value, any other failure escapes.
    pub fn recover_if<
        T,
        F: FnOnce(Reader) -> (Reader, Result<T, Expected>),
        G: FnOnce(&Expected) -> bool,
    >(self, f: F, pred: G) -> (r: (Reader, Result<Option<T>, Expected>))
        requires
            self.inv(),
            call_requires(f, (self,)),
            forall|e: Expected| call_requires(pred, (&e,)),
        ensures
            r.1 matches Ok(Some(t)) ==> call_ensures(f, (self,), (r.0, Ok(t))),
            r.1 matches Ok(t) && t is None ==> {
                &&& r.0.input_spec().eqv(&self.input_spec())
                &&& r.0.inv()
                &&& exists|rd0: Reader, e0: Expected|
                    #[trigger] call_ensures(f, (self,), (rd0, Err(e0))) && call_ensures(
                        pred,
                        (&e0,),
                        true,
                    )
            },
            r.1 matches Err(e) ==> exists|rd0: Reader|
                #[trigger] call_ensures(f, (self,), (rd0, Err(e))) && call_ensures(
                    pred,
                    (&e,),
                    false,
                ) && r.0 == rd0,
    {
        let entry = self.input.clone();
        let (rd, res) = f(self);
        match res {
            Ok(t) => (rd, Ok(Some(t))),
            Err(e) => {
                if pred(&e) {
                    (Reader { input: entry }, Ok(None))
                } else {
                    (rd, Err(e))
                }
            },
        }
    }

    /// Peeks `n` bytes and applies `pred` to them; advances past them when
    /// the predicate accepts, errors with an invalid-content error when it
    /// rejects, and with a length error when fewer than `n` bytes are
    /// left. The cursor is unmoved on any failure.
    pub fn verify<F: FnOnce(Bytes) -> bool>(
        &mut self,
        expected: &'static str,
        n: usize,
        pred: F,
    ) -> (r: Result<(), Expected>)
        requires
            old(self).inv(),
            forall|b: Bytes| b.inv() ==> call_requires(pred, (b,)),
        ensures
            final(self).inv(),
            match r {
                Ok(_) => {
                    &&& n <= old(self).input_spec()@.len()
                    &&& exists|b: Bytes|
                        b@ == old(self).input_spec()@.subrange(0, n as int) && #[trigger]
                        call_ensures(pred, (b,), true)
                    &&& final(self).input_spec()@ == old(self).input_spec()@.subrange(
                        n as int,
                        old(self).input_spec()@.len() as int,
                    )
                    &&& final(self).input_spec().start_offset() == old(
                        self,
                    ).input_spec().start_offset() + n
                    &&& final(self).input_spec().bound_spec() == old(
                        self,
                    ).input_spec().bound_spec()
                },
                Err(e) => {
                    &&& *final(self) == *old(self)
                    &&& e.wf()
                    &&& n <= old(self).input_spec()@.len() ==> {
                        &&& exists|b: Bytes|
                            b@ == old(self).input_spec()@.subrange(0, n as int) && #[trigger]
                            call_ensures(pred, (b,), false)
                        &&& is_valid_error(
                            e,
                            old(self).input_spec()@.subrange(0, n as int),
                            old(self).input_spec().start_offset(),
                            old(self).input_spec()@,
                            old(self).input_spec().start_offset(),
                            old(self).input_spec().bound_spec(),
                            "verify"@,
                            expected@,
                            None,
                        )
                    }
                    &&& n > old(self).input_spec()@.len() ==> is_length_error(
                        e,
                        n as nat,
                        None,
                        old(self).input_spec()@,
                        old(self).input_spec().start_offset(),
                        old(self).input_spec()@,
                        old(self).input_spec().start_offset(),
                        old(self).input_spec().bound_spec(),
                        "verify"@,
                        "enough input"@,
                    )
                },
            },
    {
        match self.input.clone().split_at(n, "verify") {
            Ok((head, tail)) => {
                let span = head.clone();
                if pred(head) {
                    self.input = tail;
                    Ok(())
                } else {
                    let input = self.input.clone();
                    Err(make_valid_error(span, input, "verify", expected, None))
                }
            },
            Err(e) => Err(e),
        }
    }

    /// Advances over the longest prefix of the input that decodes as
    /// UTF-8 code points accepted by `pred`, and returns it. A malformed
    /// sequence is an invalid-content error, retryable exactly when the
    /// sequence is a truncated but so-far-well-formed encoding; the
    /// cursor is then unmoved.
    pub fn take_str_while<F: Fn(char) -> bool>(&mut self, pred: F) -> (r: Result<Bytes, Expected>)
        requires
            old(self).inv(),
            forall|c: char| call_requires(pred, (c,)),
        ensures
            final(self).inv(),
            match r {
                Ok(head) => {
                    &&& head@.len() <= old(self).input_spec()@.len()
                    &&& head@ == old(self).input_spec()@.subrange(0, head@.len() as int)
                    &&& head.start_offset() == old(self).input_spec().start_offset()
                    &&& head.inv()
                    &&& valid_utf8(head@)
                    &&& final(self).input_spec()@ == old(self).input_spec()@.subrange(
                        head@.len() as int,
                        old(self).input_spec()@.len() as int,
                    )
                    &&& final(self).input_spec().start_offset() == old(
                        self,
                    ).input_spec().start_offset() + head@.len()
                    &&& final(self).input_spec().bound_spec() == old(
                        self,
                    ).input_spec().bound_spec()
                    &&& (final(self).input_spec()@.len() > 0 ==> vstd::utf8::valid_first_scalar(
                        old(self).input_spec()@.subrange(
                            head@.len() as int,
                            old(self).input_spec()@.len() as int,
                        ),
                    ) && exists|c: char|
                        c as u32 == vstd::utf8::decode_first_scalar(
                            old(self).input_spec()@.subrange(
                                head@.len() as int,
                                old(self).input_spec()@.len() as int,
                            ),
                        ) && #[trigger] call_ensures(pred, (c,), false))
                },
                Err(e) => {
                    &&& *final(self) == *old(self)
                    &&& e.wf()
                    &&& exists|i: int, retry: Option<RetryRequirement>|
                        {
                            &&& 0 <= i < old(self).input_spec()@.len()
                            &&& partial_valid_utf8(old(self).input_spec()@, i)
                            &&& !vstd::utf8::valid_first_scalar(
                                old(self).input_spec()@.subrange(
                                    i,
                                    old(self).input_spec()@.len() as int,
                                ),
                            )
                            &&& #[trigger] is_valid_error(
                                e,
                                old(self).input_spec()@.subrange(
                                    i,
                                    old(self).input_spec()@.len() as int,
                                ),
                                (old(self).input_spec().start_offset() + i) as nat,
                                old(self).input_spec()@,
                                old(self).input_spec().start_offset(),
                                old(self).input_spec().bound_spec(),
                                "take str while"@,
                                "utf-8 code point"@,
                                retry,
                            )
                            &&& (match retry {
                                Some(req) => crate::string::truncated_scalar_suffix(
                                    old(self).input_spec()@,
                                    i,
                                ) && req.needed_spec() == crate::string::utf8_char_len_spec(
                                    old(self).input_spec()@[i],
                                ) - (old(self).input_spec()@.len() - i),
                                None => !crate::string::truncated_scalar_suffix(
                                    old(self).input_spec()@,
                                    i,
                                ),
                            })
                        }
                },
            },
    {
        let n = self.input.byte_len();
        let mut i: usize = 0;
        loop
            invariant
                0 <= i <= n,
                n == self.input_spec()@.len(),
                self.inv(),
                self == old(self),
                partial_valid_utf8(self.input_spec()@, i as int),
                forall|c: char| call_requires(pred, (c,)),
            ensures
                0 <= i <= n,
                n == self.input_spec()@.len(),
                self == old(self),
                partial_valid_utf8(self.input_spec()@, i as int),
                i < n ==> vstd::utf8::valid_first_scalar(
                    self.input_spec()@.subrange(i as int, n as int),
                ) && exists|c: char|
                    c as u32 == vstd::utf8::decode_first_scalar(
                        self.input_spec()@.subrange(i as int, n as int),
                    ) && #[trigger] call_ensures(pred, (c,), false),
            decreases n - i,
        {
            if i >= n {
                break ;
            }
            let rest = vstd::slice::slice_subrange(self.input.as_dangerous(), i, n);
            match first_codepoint(rest) {
                Ok(c) => {
                    proof {
                        crate::string::lemma_first_scalar_len_agrees(rest@);
                        crate::string::lemma_valid_first_scalar_char_len(rest@);
                    }
                    if !pred(c) {
                        proof {
                            assert(call_ensures(pred, (c,), false));
                        }
                        break ;
                    }
                    proof {
                        partial_valid_utf8_extend(self.input_spec()@, i as int);
                    }
                    let l = char_len_utf8(c);
                    i += l;
                },
                Err(_) => {
                    // a truncated encoding may still complete in a later
                    // pass; anything else is final
                    let b0 = rest[0];
                    let l0 = utf8_char_len(b0);
                    let have = n - i;
                    let mut incomplete = l0 > have;
                    let mut j: usize = 1;
                    while j < have
                        invariant
                            1 <= j <= have,
                            have == n - i,
                            i < n,
                            n == self.input_spec()@.len(),
                            self.inv(),
                            self == old(self),
                            l0 == crate::string::utf8_char_len_spec(self.input_spec()@[i as int]),
                            incomplete == (l0 > have && forall|t: int|
                                i < t < i + j ==> vstd::utf8::is_continuation_byte(
                                    #[trigger] self.input_spec()@[t],
                                )),
                        decreases have - j,
                    {
                        if !utf8_is_cont_byte(self.input.as_dangerous()[i + j]) {
                            incomplete = false;
                        }
                        j += 1;
                    }
                    proof {
                        assert(incomplete == crate::string::truncated_scalar_suffix(
                            self.input_spec()@,
                            i as int,
                        ));
                    }
                    let retry = if incomplete {
                        RetryRequirement::from_had_and_needed(have, l0)
                    } else {
                        None
                    };
                    let (_, span) = self.input.clone().split_at_byte_unchecked(i);
                    let input = self.input.clone();
                    let e = make_valid_error(span, input, "take str while", "utf-8 code point", retry);
                    proof {
                        assert(is_valid_error(
                            e,
                            self.input_spec()@.subrange(i as int, n as int),
                            (self.input_spec().start_offset() + i) as nat,
                            self.input_spec()@,
                            self.input_spec().start_offset(),
                            self.input_spec().bound_spec(),
                            "take str while"@,
                            "utf-8 code point"@,
                            retry,
                        ));
                    }
                    return Err(e);
                },
            }
        }
        let (head, tail) = self.input.clone().split_at_byte_unchecked(i);
        self.input = tail;
        Ok(head)
    }
}

/// True when a reader step may turn the input `pre` into `post`: the new
/// input is a tail view of the old one. Every reader primitive maintains
/// this.
pub open spec fn advances(pre: Bytes, post: Bytes) -> bool {
    &&& within(post@, post.start_offset(), pre@, pre.start_offset())
    &&& post.end_offset() == pre.end_offset()
}

/// True when `f` only ever advances a cursor whose input matches `input`:
/// what the closure-driven read operations require so that the consumed
/// region stays a sub-view of the input.
pub open spec fn advances_from<T, F: FnOnce(Reader) -> (Reader, Result<T, Expected>)>(
    f: F,
    input: Bytes,
) -> bool {
    forall|rd_in: Reader, out: (Reader, Result<T, Expected>)|
        rd_in.input_spec().eqv(&input) && #[trigger] call_ensures(f, (rd_in,), out) ==> advances(
            rd_in.input_spec(),
            out.0.input_spec(),
        )
}

/// True when `f` accepts any well-formed cursor whose input matches
/// `input`.
pub open spec fn accepts_input<T, F: FnOnce(Reader) -> (Reader, Result<T, Expected>)>(
    f: F,
    input: Bytes,
) -> bool {
    forall|rd: Reader|
        rd.input_spec().eqv(&input) && rd.inv() ==> #[trigger] call_requires(f, (rd,))
}


/// One run of a reading function: from the cursor it was handed at entry
/// to the cursor it returned. A run only ever advances, so the returned
/// cursor's input is a tail view of the entry input.
pub open spec fn run_of(entry: Reader, rd: Reader) -> bool {
    advances(entry.input_spec(), rd.input_spec())
}

/// What holds of a value that [`Bytes::read_all`] returns: some run of
/// `f` from the whole input produced it and left nothing.
pub open spec fn read_all_ok<T, F: FnOnce(Reader) -> (Reader, Result<T, Expected>)>(
    f: F,
    input: Bytes,
    t: T,
) -> bool {
    exists|entry: Reader, rd: Reader|
        {
            &&& entry.input_spec().eqv(&input)
            &&& #[trigger] call_ensures(f, (entry,), (rd, Ok(t)))
            &&& rd.input_spec()@.len() == 0
        }
}

/// What holds of an error that [`Bytes::read_all`] returns: either an
/// error of `f` widened and annotated with this operation's context, or a
/// run of `f` succeeded but left trailing input, which became a length
/// error demanding exactly none of it.
pub open spec fn read_all_err<T, F: FnOnce(Reader) -> (Reader, Result<T, Expected>)>(
    f: F,
    input: Bytes,
    e: Expected,
) -> bool {
    exists|entry: Reader, rd: Reader|
        {
            &&& #[trigger] run_of(entry, rd)
            &&& entry.input_spec().eqv(&input)
            &&& {
                ||| contexted_from(f, entry, rd, e, "read all"@, Option::<Seq<char>>::None)
                ||| (exists|t: T|
                    {
                        &&& #[trigger] call_ensures(f, (entry,), (rd, Ok(t)))
                        &&& rd.input_spec()@.len() > 0
                        &&& is_length_error(
                            e,
                            0,
                            Some(0usize),
                            rd.input_spec()@,
                            rd.input_spec().start_offset(),
                            input@,
                            input.start_offset(),
                            input.bound_spec(),
                            "read all"@,
                            "no trailing input"@,
                        )
                        &&& e.wf()
                    })
            }
        }
}

/// What holds of a value and tail that [`Bytes::read_partial`] returns:
/// some run of `f` from the whole input produced them.
pub open spec fn read_partial_ok<T, F: FnOnce(Reader) -> (Reader, Result<T, Expected>)>(
    f: F,
    input: Bytes,
    t: T,
    tail: Bytes,
) -> bool {
    exists|entry: Reader, rd: Reader|
        {
            &&& entry.input_spec().eqv(&input)
            &&& #[trigger] call_ensures(f, (entry,), (rd, Ok(t)))
            &&& tail == rd.input_spec()
        }
}

/// What holds of an error that [`Bytes::read_partial`] returns: an error
/// of `f`, widened and annotated with this operation's context.
pub open spec fn read_partial_err<T, F: FnOnce(Reader) -> (Reader, Result<T, Expected>)>(
    f: F,
    input: Bytes,
    e: Expected,
) -> bool {
    exists|entry: Reader, rd: Reader|
        entry.input_spec().eqv(&input) && contexted_from(
            f,
            entry,
            rd,
            e,
            "read partial"@,
            Option::<Seq<char>>::None,
        )
}

/// What holds of a value and tail that [`Bytes::read_infallible`]
/// returns: some run of `f` from the whole input produced them.
pub open spec fn read_infallible_ok<T, F: FnOnce(Reader) -> (Reader, T)>(
    f: F,
    input: Bytes,
    t: T,
    tail: Bytes,
) -> bool {
    exists|entry: Reader, rd: Reader|
        {
            &&& entry.input_spec().eqv(&input)
            &&& #[trigger] call_ensures(f, (entry,), (rd, t))
            &&& tail == rd.input_spec()
        }
}

/// What holds of a value and tail that [`Bytes::split_expect`] returns:
/// some run of `f` from the whole input read the value and left the tail.
pub open spec fn split_expect_ok<T, F: FnOnce(Reader) -> (Reader, Option<T>)>(
    f: F,
    input: Bytes,
    t: T,
    tail: Bytes,
) -> bool {
    exists|entry: Reader, rd: Reader|
        {
            &&& entry.input_spec().eqv(&input)
            &&& #[trigger] call_ensures(f, (entry,), (rd, Some(t)))
            &&& tail == rd.input_spec()
        }
}

/// What holds of an error that [`Bytes::split_expect`] returns: a run of
/// `f` read no value, and the region it consumed became the span of an
/// invalid-content error.
pub open spec fn split_expect_err<T, F: FnOnce(Reader) -> (Reader, Option<T>)>(
    f: F,
    input: Bytes,
    e: Expected,
    op: Seq<char>,
    exp: Seq<char>,
) -> bool {
    &&& e.wf()
    &&& exists|entry: Reader, rd: Reader|
        {
            &&& entry.input_spec().eqv(&input)
            &&& #[trigger] call_ensures(f, (entry,), (rd, Option::<T>::None))
            &&& is_valid_error(
                e,
                input@.subrange(0, input@.len() - rd.input_spec()@.len()),
                input.start_offset(),
                input@,
                input.start_offset(),
                input.bound_spec(),
                op,
                exp,
                None,
            )
        }
}

/// What holds of a value and tail that [`Bytes::try_split_expect`]
/// returns: some run of `f` from the whole input read the value and left
/// the tail.
pub open spec fn try_split_expect_ok<
    T,
    F: FnOnce(Reader) -> (Reader, Result<Option<T>, Expected>),
>(f: F, input: Bytes, t: T, tail: Bytes) -> bool {
    exists|entry: Reader, rd: Reader|
        {
            &&& entry.input_spec().eqv(&input)
            &&& #[trigger] call_ensures(f, (entry,), (rd, Ok(Some(t))))
            &&& tail == rd.input_spec()
        }
}

/// What holds of an error that [`Bytes::try_split_expect`] returns:
/// either an error of `f` widened and annotated, or a run of `f` read no
/// value and its consumed region became the span of an invalid-content
/// error.
pub open spec fn try_split_expect_err<
    T,
    F: FnOnce(Reader) -> (Reader, Result<Option<T>, Expected>),
>(f: F, input: Bytes, e: Expected, op: Seq<char>, exp: Seq<char>) -> bool {
    exists|entry: Reader, rd: Reader|
        {
            &&& #[trigger] run_of(entry, rd)
            &&& entry.input_spec().eqv(&input)
            &&& {
                ||| contexted_from(f, entry, rd, e, op, Some(exp))
                ||| {
                    &&& call_ensures(f, (entry,), (rd, Ok(Option::<T>::None)))
                    &&& is_valid_error(
                        e,
                        input@.subrange(0, input@.len() - rd.input_spec()@.len()),
                        input.start_offset(),
                        input@,
                        input.start_offset(),
                        input.bound_spec(),
                        op,
                        exp,
                        None,
                    )
                    &&& e.wf()
                }
            }
        }
}

/// What holds of a value and tail that [`Bytes::try_split_expect_erased`]
/// returns: some run of `f` from the whole input read the value and left
/// the tail.
pub open spec fn erased_expect_ok<
    T,
    F: FnOnce(Reader) -> (Reader, Result<T, Option<RetryRequirement>>),
>(f: F, input: Bytes, t: T, tail: Bytes) -> bool {
    exists|entry: Reader, rd: Reader|
        {
            &&& entry.input_spec().eqv(&input)
            &&& #[trigger] call_ensures(f, (entry,), (rd, Ok(t)))
            &&& tail == rd.input_spec()
        }
}

/// What holds of an error that [`Bytes::try_split_expect_erased`]
/// returns: a run of `f` failed with a retry requirement, and its
/// consumed region became the span of an invalid-content error carrying
/// that requirement.
pub open spec fn erased_expect_err<
    T,
    F: FnOnce(Reader) -> (Reader, Result<T, Option<RetryRequirement>>),
>(f: F, input: Bytes, e: Expected, op: Seq<char>, exp: Seq<char>) -> bool {
    &&& e.wf()
    &&& exists|entry: Reader, rd: Reader, req: Option<RetryRequirement>|
        {
            &&& entry.input_spec().eqv(&input)
            &&& #[trigger] call_ensures(f, (entry,), (rd, Err(req)))
            &&& is_valid_error(
                e,
                input@.subrange(0, input@.len() - rd.input_spec()@.len()),
                input.start_offset(),
                input@,
                input.start_offset(),
                input.bound_spec(),
                op,
                exp,
                req,
            )
        }
}

impl Bytes {
    /// Creates a reader with the expectation that all of the input is
    /// read: trailing input left by `f` is a length error demanding
    /// exactly zero bytes of it.
    pub fn read_all<T, F: FnOnce(Reader) -> (Reader, Result<T, Expected>)>(self, f: F) -> (r:
        Result<T, Expected>)
        requires
            self.inv(),
            accepts_input(f, self),
            advances_from(f, self),
        ensures
            r matches Ok(t) ==> read_all_ok(f, self, t),
            r matches Err(e) ==> read_all_err(f, self, e),
    {
        let entry = Reader::new(self.clone());
        let ghost entry_spec = entry;
        let (mut rd, res) = entry.context(&OperationContext("read all"), f);
        match res {
            Ok(t) => {
                proof {
                    assert(call_ensures(f, (entry_spec,), (rd, Ok(t))));
                    assert(advances(entry_spec.input_spec(), rd.input_spec()));
                    crate::bytes::lemma_within_inv(rd.input_spec(), self);
                }
                if rd.at_end() {
                    proof {
                        assert(read_all_ok(f, self, t));
                    }
                    Ok(t)
                } else {
                    let ghost t_spec = t;
                    let ghost rd0 = rd;
                    let span = rd.take_remaining();
                    let e = make_length_error(
                        0,
                        Some(0),
                        span,
                        self,
                        "read all",
                        "no trailing input",
                    );
                    proof {
                        assert(call_ensures(f, (entry_spec,), (rd0, Ok(t_spec))));
                        assert(is_length_error(
                            e,
                            0,
                            Some(0usize),
                            rd0.input_spec()@,
                            rd0.input_spec().start_offset(),
                            self@,
                            self.start_offset(),
                            self.bound_spec(),
                            "read all"@,
                            "no trailing input"@,
                        ));
                        assert(exists|t2: T|
                            {
                                &&& #[trigger] call_ensures(f, (entry_spec,), (rd0, Ok(t2)))
                                &&& rd0.input_spec()@.len() > 0
                                &&& is_length_error(
                                    e,
                                    0,
                                    Some(0usize),
                                    rd0.input_spec()@,
                                    rd0.input_spec().start_offset(),
                                    self@,
                                    self.start_offset(),
                                    self.bound_spec(),
                                    "read all"@,
                                    "no trailing input"@,
                                )
                                &&& e.wf()
                            });
                        assert(run_of(entry_spec, rd0));
                        assert(read_all_err(f, self, e));
                    }
                    Err(e)
                }
            },
            Err(e) => {
                proof {
                    assert(contexted_from(
                        f,
                        entry_spec,
                        rd,
                        e,
                        "read all"@,
                        Option::<Seq<char>>::None,
                    ));
                    assert(advances(entry_spec.input_spec(), rd.input_spec()));
                    assert(run_of(entry_spec, rd));
                    assert(read_all_err(f, self, e));
                }
                Err(e)
            },
        }
    }

    /// Creates a reader to read a part of the input; hands back what `f`
    /// produced together with whatever input it left.
    pub fn read_partial<T, F: FnOnce(Reader) -> (Reader, Result<T, Expected>)>(self, f: F) -> (r:
        Result<(T, Bytes), Expected>)
        requires
            self.inv(),
            accepts_input(f, self),
            advances_from(f, self),
        ensures
            r matches Ok(out) ==> read_partial_ok(f, self, out.0, out.1),
            r matches Err(e) ==> read_partial_err(f, self, e),
    {
        let entry = Reader::new(self.clone());
        let ghost entry_spec = entry;
        let (mut rd, res) = entry.context(&OperationContext("read partial"), f);
        match res {
            Ok(t) => {
                proof {
                    assert(call_ensures(f, (entry_spec,), (rd, Ok(t))));
                    assert(advances(entry_spec.input_spec(), rd.input_spec()));
                    crate::bytes::lemma_within_inv(rd.input_spec(), self);
                }
                let tail = rd.take_remaining();
                proof {
                    assert(read_partial_ok(f, self, t, tail));
                }
                Ok((t, tail))
            },
            Err(e) => {
                proof {
                    assert(contexted_from(
                        f,
                        entry_spec,
                        rd,
                        e,
                        "read partial"@,
                        Option::<Seq<char>>::None,
                    ));
                    assert(read_partial_err(f, self, e));
                }
                Err(e)
            },
        }
    }

    /// Creates a reader to read a part of the input without any errors;
    /// hands back what `f` produced together with whatever input it left.
    pub fn read_infallible<T, F: FnOnce(Reader) -> (Reader, T)>(self, f: F) -> (r: (T, Bytes))
        requires
            self.inv(),
            forall|rd: Reader|
                rd.input_spec().eqv(&self) && rd.inv() ==> #[trigger] call_requires(f, (rd,)),
            forall|rd_in: Reader, out: (Reader, T)|
                rd_in.input_spec().eqv(&self) && #[trigger] call_ensures(f, (rd_in,), out)
                    ==> advances(rd_in.input_spec(), out.0.input_spec()),
        ensures
            read_infallible_ok(f, self, r.0, r.1),
    {
        let entry = Reader::new(self.clone());
        let ghost entry_spec = entry;
        let (t, mut rd) = {
            let (rd0, t0) = f(entry);
            (t0, rd0)
        };
        proof {
            assert(call_ensures(f, (entry_spec,), (rd, t)));
            assert(advances(entry_spec.input_spec(), rd.input_spec()));
            crate::bytes::lemma_within_inv(rd.input_spec(), self);
        }
        let tail = rd.take_remaining();
        proof {
            assert(read_infallible_ok(f, self, t, tail));
        }
        (t, tail)
    }

    /// Splits the input into what `f`'s reader consumed and what remains.
    /// If the tail comes back with no bound at all, the head's end is
    /// weakened too: the consumed region could have reached further had
    /// more input been available.
    pub fn split_consumed<T, F: FnOnce(Reader) -> (Reader, Result<T, Expected>)>(self, f: F) -> (r:
        (Bytes, Bytes))
        requires
            self.inv(),
            accepts_input(f, self),
            advances_from(f, self),
        ensures
            r.0@ + r.1@ == self@,
            r.0.start_offset() == self.start_offset(),
            r.1.start_offset() == self.start_offset() + r.0@.len(),
            r.0.inv(),
            r.1.inv(),
            r.1.bound_spec() == Bound::Unbound ==> r.0.bound_spec()
                == self.bound_spec().close_end_spec().open_end_spec(),
            r.1.bound_spec() != Bound::Unbound ==> r.0.bound_spec()
                == self.bound_spec().close_end_spec(),
            exists|entry: Reader, rd: Reader, res: Result<T, Expected>|
                {
                    &&& entry.input_spec().eqv(&self)
                    &&& #[trigger] call_ensures(f, (entry,), (rd, res))
                    &&& r.1.eqv(&rd.input_spec())
                },
    {
        let entry = Reader::new(self.clone());
        let ghost entry_spec = entry;
        let (rd, res) = f(entry);
        let mut rd = rd;
        proof {
            assert(call_ensures(f, (entry_spec,), (rd, res)));
            assert(advances(entry_spec.input_spec(), rd.input_spec()));
            crate::bytes::lemma_within_inv(rd.input_spec(), self);
        }
        let tail = rd.take_remaining();
        let mid = self.byte_len() - tail.byte_len();
        let (head, _) = self.clone().split_at_byte_unchecked(mid);
        proof {
            assert(head@ + tail@ =~= self@);
        }
        if tail.bound() == Bound::Unbound {
            (head.into_unbound_end(), tail)
        } else {
            (head, tail)
        }
    }

    /// Splits the input into the region from which `f`'s reader read a
    /// value and what remains; when `f` reads no value, the consumed
    /// region becomes the span of an invalid-content error.
    pub fn split_expect<T, F: FnOnce(Reader) -> (Reader, Option<T>)>(
        self,
        f: F,
        expected: &'static str,
        operation: &'static str,
    ) -> (r: Result<(T, Bytes), Expected>)
        requires
            self.inv(),
            forall|rd: Reader|
                rd.input_spec().eqv(&self) && rd.inv() ==> #[trigger] call_requires(f, (rd,)),
            forall|rd_in: Reader, out: (Reader, Option<T>)|
                rd_in.input_spec().eqv(&self) && #[trigger] call_ensures(f, (rd_in,), out)
                    ==> advances(rd_in.input_spec(), out.0.input_spec()),
        ensures
            r matches Ok(out) ==> split_expect_ok(f, self, out.0, out.1),
            r matches Err(e) ==> split_expect_err(f, self, e, operation@, expected@),
    {
        let entry = Reader::new(self.clone());
        let ghost entry_spec = entry;
        let (rd, res) = f(entry);
        let mut rd = rd;
        proof {
            assert(call_ensures(f, (entry_spec,), (rd, res)));
            assert(advances(entry_spec.input_spec(), rd.input_spec()));
            crate::bytes::lemma_within_inv(rd.input_spec(), self);
        }
        let ghost rd0 = rd;
        match res {
            Some(t) => {
                let tail = rd.take_remaining();
                proof {
                    assert(split_expect_ok(f, self, t, tail));
                }
                Ok((t, tail))
            },
            None => {
                let tail = rd.take_remaining();
                let mid = self.byte_len() - tail.byte_len();
                let (span, _) = self.clone().split_at_byte_unchecked(mid);
                proof {
                    assert(span@ =~= self@.subrange(0, self@.len() - rd0.input_spec()@.len()));
                }
                let e = make_valid_error(span, self, operation, expected, None);
                proof {
                    assert(split_expect_err(f, self, e, operation@, expected@));
                }
                Err(e)
            },
        }
    }

    /// As [`Bytes::split_expect`], for a reading function that can also
    /// fail outright: its own error escapes with this operation's context
    /// pushed on.
    pub fn try_split_expect<T, F: FnOnce(Reader) -> (Reader, Result<Option<T>, Expected>)>(
        self,
        f: F,
        expected: &'static str,
        operation: &'static str,
    ) -> (r: Result<(T, Bytes), Expected>)
        requires
            self.inv(),
            accepts_input(f, self),
            advances_from(f, self),
        ensures
            r matches Ok(out) ==> try_split_expect_ok(f, self, out.0, out.1),
            r matches Err(e) ==> try_split_expect_err(f, self, e, operation@, expected@),
    {
        let entry = Reader::new(self.clone());
        let ghost entry_spec = entry;
        let (rd, res) = entry.context(&ExpectedContext { operation, expected }, f);
        let mut rd = rd;
        proof {
            if res is Ok {
                assert(call_ensures(f, (entry_spec,), (rd, Ok(res->Ok_0))));
                assert(advances(entry_spec.input_spec(), rd.input_spec()));
                crate::bytes::lemma_within_inv(rd.input_spec(), self);
            }
        }
        let ghost rd0 = rd;
        match res {
            Ok(Some(t)) => {
                let tail = rd.take_remaining();
                proof {
                    assert(try_split_expect_ok(f, self, t, tail));
                }
                Ok((t, tail))
            },
            Ok(None) => {
                let tail = rd.take_remaining();
                let mid = self.byte_len() - tail.byte_len();
                let (span, _) = self.clone().split_at_byte_unchecked(mid);
                proof {
                    assert(span@ =~= self@.subrange(0, self@.len() - rd0.input_spec()@.len()));
                }
                let e = make_valid_error(span, self, operation, expected, None);
                proof {
                    assert(call_ensures(f, (entry_spec,), (rd0, Ok(Option::<T>::None))));
                    assert(run_of(entry_spec, rd0));
                    assert(try_split_expect_err(f, self, e, operation@, expected@));
                }
                Err(e)
            },
            Err(e) => {
                proof {
                    assert(entry_spec.input_spec().eqv(&self));
                    assert(contexted_from(f, entry_spec, rd, e, operation@, Some(expected@)));
                    assert(advances(entry_spec.input_spec(), rd.input_spec()));
                    assert(run_of(entry_spec, rd));
                    assert(try_split_expect_err(f, self, e, operation@, expected@));
                }
                Err(e)
            },
        }
    }

    /// As [`Bytes::split_expect`], for a reading function whose failure
    /// has already been erased down to a retry requirement: the error
    /// built here carries that requirement.
    pub fn try_split_expect_erased<
        T,
        F: FnOnce(Reader) -> (Reader, Result<T, Option<RetryRequirement>>),
    >(
        self,
        f: F,
        expected: &'static str,
        operation: &'static str,
    ) -> (r: Result<(T, Bytes), Expected>)
        requires
            self.inv(),
            forall|rd: Reader|
                rd.input_spec().eqv(&self) && rd.inv() ==> #[trigger] call_requires(f, (rd,)),
            forall|rd_in: Reader, out: (Reader, Result<T, Option<RetryRequirement>>)|
                rd_in.input_spec().eqv(&self) && #[trigger] call_ensures(f, (rd_in,), out)
                    ==> advances(rd_in.input_spec(), out.0.input_spec()),
        ensures
            r matches Ok(out) ==> erased_expect_ok(f, self, out.0, out.1),
            r matches Err(e) ==> erased_expect_err(f, self, e, operation@, expected@),
    {
        let entry = Reader::new(self.clone());
        let ghost entry_spec = entry;
        let (rd, res) = f(entry);
        let mut rd = rd;
        proof {
            assert(call_ensures(f, (entry_spec,), (rd, res)));
            assert(advances(entry_spec.input_spec(), rd.input_spec()));
            crate::bytes::lemma_within_inv(rd.input_spec(), self);
        }
        let ghost rd0 = rd;
        match res {
            Ok(t) => {
                let tail = rd.take_remaining();
                proof {
                    assert(erased_expect_ok(f, self, t, tail));
                }
                Ok((t, tail))
            },
            Err(req) => {
                let tail = rd.take_remaining();
                let mid = self.byte_len() - tail.byte_len();
                let (span, _) = self.clone().split_at_byte_unchecked(mid);
                proof {
                    assert(span@ =~= self@.subrange(0, self@.len() - rd0.input_spec()@.len()));
                }
                let e = make_valid_error(span, self, operation, expected, req);
                proof {
                    assert(erased_expect_err(f, self, e, operation@, expected@));
                }
                Err(e)
            },
        }
    }

    /// As [`Bytes::split_consumed`], for a reading function that can
    /// fail: its error escapes with this operation's context pushed on.
    pub fn try_split_consumed<T, F: FnOnce(Reader) -> (Reader, Result<T, Expected>)>(
        self,
        f: F,
        operation: &'static str,
    ) -> (r: Result<(Bytes, Bytes), Expected>)
        requires
            self.inv(),
            accepts_input(f, self),
            advances_from(f, self),
        ensures
            r matches Ok(out) ==> {
                &&& out.0@ + out.1@ == self@
                &&& out.0.start_offset() == self.start_offset()
                &&& out.1.start_offset() == self.start_offset() + out.0@.len()
                &&& out.0.inv()
                &&& out.1.inv()
                &&& (out.1.bound_spec() == Bound::Unbound ==> out.0.bound_spec()
                    == self.bound_spec().close_end_spec().open_end_spec())
                &&& (out.1.bound_spec() != Bound::Unbound ==> out.0.bound_spec()
                    == self.bound_spec().close_end_spec())
                &&& exists|entry: Reader, rd: Reader, t: T|
                    {
                        &&& entry.input_spec().eqv(&self)
                        &&& #[trigger] call_ensures(f, (entry,), (rd, Ok(t)))
                        &&& out.1.eqv(&rd.input_spec())
                    }
            },
            r matches Err(e) ==> exists|entry: Reader, rd: Reader|
                entry.input_spec().eqv(&self) && contexted_from(
                    f,
                    entry,
                    rd,
                    e,
                    operation@,
                    Option::<Seq<char>>::None,
                ),
    {
        let entry = Reader::new(self.clone());
        let ghost entry_spec = entry;
        let (rd, res) = entry.context(&OperationContext(operation), f);
        let mut rd = rd;
        match res {
            Ok(t) => {
                proof {
                    assert(call_ensures(f, (entry_spec,), (rd, Ok(t))));
                    assert(advances(entry_spec.input_spec(), rd.input_spec()));
                    crate::bytes::lemma_within_inv(rd.input_spec(), self);
                }
                let tail = rd.take_remaining();
                let mid = self.byte_len() - tail.byte_len();
                let (head, _) = self.clone().split_at_byte_unchecked(mid);
                proof {
                    assert(head@ + tail@ =~= self@);
                }
                if tail.bound() == Bound::Unbound {
                    Ok((head.into_unbound_end(), tail))
                } else {
                    Ok((head, tail))
                }
            },
            Err(e) => {
                proof {
                    assert(contexted_from(
                        f,
                        entry_spec,
                        rd,
                        e,
                        operation@,
                        Option::<Seq<char>>::None,
                    ));
                }
                Err(e)
            },
        }
    }
}


impl Reader {
    /// Advances over the longest prefix in which `pattern` covers every
    /// token, and returns it; never fails.
    pub fn take_while<P: crate::pattern::Pattern>(&mut self, pattern: &P) -> (r: Bytes)
        requires
            old(self).inv(),
        ensures
            final(self).inv(),
            r@.len() <= old(self).input_spec()@.len(),
            r@ == old(self).input_spec()@.subrange(0, r@.len() as int),
            r.start_offset() == old(self).input_spec().start_offset(),
            r.inv(),
            forall|j: int| 0 <= j < r@.len() ==> !pattern.is_reject_at(old(self).input_spec()@, j),
            r@.len() < old(self).input_spec()@.len() ==> pattern.is_reject_at(
                old(self).input_spec()@,
                r@.len() as int,
            ) || (forall|j: int|
                0 <= j <= old(self).input_spec()@.len() ==> !pattern.is_reject_at(
                    old(self).input_spec()@,
                    j,
                )),
            final(self).input_spec()@ == old(self).input_spec()@.subrange(
                r@.len() as int,
                old(self).input_spec()@.len() as int,
            ),
            final(self).input_spec().start_offset() == old(self).input_spec().start_offset()
                + r@.len(),
            final(self).input_spec().bound_spec() == old(self).input_spec().bound_spec(),
    {
        match self.input.clone().split_while_opt(pattern) {
            Some((head, tail)) => {
                self.input = tail;
                head
            },
            None => self.take_remaining(),
        }
    }

    /// Advances up to, but not over, the first match of `pattern` and
    /// returns the bytes before it; errors with a wrong-value error when
    /// the pattern matches nowhere, leaving the cursor unmoved.
    pub fn take_until<P: crate::pattern::Pattern>(&mut self, pattern: &P) -> (r: Result<
        Bytes,
        Expected,
    >)
        requires
            old(self).inv(),
        ensures
            final(self).inv(),
            match r {
                Ok(head) => {
                    &&& head@.len() <= old(self).input_spec()@.len()
                    &&& pattern.is_match_at(old(self).input_spec()@, head@.len() as int)
                    &&& forall|j: int|
                        0 <= j < head@.len() ==> !pattern.is_match_at(
                            old(self).input_spec()@,
                            j,
                        )
                    &&& head@ == old(self).input_spec()@.subrange(0, head@.len() as int)
                    &&& head.start_offset() == old(self).input_spec().start_offset()
                    &&& head.inv()
                    &&& final(self).input_spec()@ == old(self).input_spec()@.subrange(
                        head@.len() as int,
                        old(self).input_spec()@.len() as int,
                    )
                    &&& final(self).input_spec().start_offset() == old(
                        self,
                    ).input_spec().start_offset() + head@.len()
                    &&& final(self).input_spec().bound_spec() == old(
                        self,
                    ).input_spec().bound_spec()
                },
                Err(e) => {
                    &&& forall|j: int|
                        0 <= j <= old(self).input_spec()@.len() ==> !pattern.is_match_at(
                            old(self).input_spec()@,
                            j,
                        )
                    &&& *final(self) == *old(self)
                    &&& crate::split::is_value_error(
                        e,
                        pattern.value_spec(),
                        old(self).input_spec()@,
                        old(self).input_spec().start_offset(),
                        old(self).input_spec()@,
                        old(self).input_spec().start_offset(),
                        old(self).input_spec().bound_spec(),
                        "take until"@,
                        "pattern match"@,
                    )
                    &&& e.wf()
                },
            },
    {
        match self.input.clone().split_until(pattern, "take until") {
            Ok((head, tail)) => {
                self.input = tail;
                Ok(head)
            },
            Err(e) => Err(e),
        }
    }

    /// Advances past the first match of `pattern`, dropping the match
    /// itself, and returns the bytes before it; errors with a wrong-value
    /// error when the pattern matches nowhere, leaving the cursor
    /// unmoved.
    pub fn take_until_consume<P: crate::pattern::Pattern>(&mut self, pattern: &P) -> (r: Result<
        Bytes,
        Expected,
    >)
        requires
            old(self).inv(),
        ensures
            final(self).inv(),
            match r {
                Ok(head) => {
                    &&& head@.len() + pattern.match_len_at(
                        old(self).input_spec()@,
                        head@.len() as int,
                    ) <= old(self).input_spec()@.len()
                    &&& pattern.is_match_at(old(self).input_spec()@, head@.len() as int)
                    &&& forall|j: int|
                        0 <= j < head@.len() ==> !pattern.is_match_at(
                            old(self).input_spec()@,
                            j,
                        )
                    &&& head@ == old(self).input_spec()@.subrange(0, head@.len() as int)
                    &&& head.start_offset() == old(self).input_spec().start_offset()
                    &&& head.inv()
                    &&& final(self).input_spec()@ == old(self).input_spec()@.subrange(
                        (head@.len() + pattern.match_len_at(
                            old(self).input_spec()@,
                            head@.len() as int,
                        )) as int,
                        old(self).input_spec()@.len() as int,
                    )
                    &&& final(self).input_spec().bound_spec() == old(
                        self,
                    ).input_spec().bound_spec()
                },
                Err(e) => {
                    &&& forall|j: int|
                        0 <= j <= old(self).input_spec()@.len() ==> !pattern.is_match_at(
                            old(self).input_spec()@,
                            j,
                        )
                    &&& *final(self) == *old(self)
                    &&& crate::split::is_value_error(
                        e,
                        pattern.value_spec(),
                        old(self).input_spec()@,
                        old(self).input_spec().start_offset(),
                        old(self).input_spec()@,
                        old(self).input_spec().start_offset(),
                        old(self).input_spec().bound_spec(),
                        "take until consume"@,
                        "pattern match"@,
                    )
                    &&& e.wf()
                },
            },
    {
        match self.input.clone().split_until_consume(pattern, "take until consume") {
            Ok((head, tail)) => {
                self.input = tail;
                Ok(head)
            },
            Err(e) => Err(e),
        }
    }
}

} // verus!
