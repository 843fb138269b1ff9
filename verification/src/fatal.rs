//! The catch-all errors a caller picks when trading diagnostic detail for
//! size: [`Fatal`] forgets everything, [`Invalid`] keeps only the retry
//! requirement.

use vstd::prelude::*;

use crate::context::Context;
use crate::display::ErrorDisplay;
use crate::expected::{Expected, ExpectedLength, ExpectedValid, ExpectedValue};
use crate::retry::RetryRequirement;
use crate::text::MaybeString;

verus! {

/// `Fatal` contains no details around what went wrong and cannot be
/// retried.
///
/// This is the most compact catch-all error, but it provides no context to
/// debug problems and cannot be used in streaming contexts.
#[derive(Clone, Copy, Debug, PartialEq, Eq, Structural)]
pub struct Fatal;

impl Fatal {
    /// The rendering of the error: it only ever says the input was
    /// invalid.
    pub fn to_display_string(&self) -> (r: String)
        ensures
            r@ == "invalid input"@,
    {
        "invalid input".to_owned()
    }

    /// Returns an [`ErrorDisplay`] for formatting.
    pub fn display(&self) -> (r: ErrorDisplay)
        ensures
            r.rendered_spec() == "invalid input"@,
    {
        ErrorDisplay::new(self.to_display_string())
    }

    /// A scope's context is dropped: this error keeps nothing.
    pub fn from_context<C: Context>(self, input: &MaybeString, context: &C) -> (r: Fatal)
        ensures
            r == self,
    {
        self
    }

    /// No extension of the input can change the outcome.
    pub fn to_retry_requirement(&self) -> (r: Option<RetryRequirement>)
        ensures
            r is None,
    {
        None
    }

    /// This error is always final.
    pub fn is_fatal(&self) -> (r: bool)
        ensures
            r,
    {
        true
    }

    /// Forgets the detail of a failed exact-value requirement.
    pub fn from_value(err: ExpectedValue) -> (r: Fatal) {
        Fatal
    }

    /// Forgets the detail of a failed length requirement.
    pub fn from_length(err: ExpectedLength) -> (r: Fatal) {
        Fatal
    }

    /// Forgets the detail of semantically invalid content.
    pub fn from_valid(err: ExpectedValid) -> (r: Fatal) {
        Fatal
    }

    /// Forgets everything a full error gathered.
    pub fn from_expected(err: Expected) -> (r: Fatal) {
        Fatal
    }
}

/// `Invalid` keeps only the retry requirement of the error it came from:
/// enough for a streaming caller to know whether and how far to extend the
/// input, and nothing else.
#[derive(Clone, Copy, Debug, PartialEq, Eq, Structural)]
pub struct Invalid {
    retry_requirement: Option<RetryRequirement>,
}

impl Invalid {
    /// The stored requirement.
    pub closed spec fn retry_requirement_spec(&self) -> Option<RetryRequirement> {
        self.retry_requirement
    }

    /// An error carrying only `retry_requirement`.
    pub fn new(retry_requirement: Option<RetryRequirement>) -> (r: Invalid)
        ensures
            r.retry_requirement_spec() == retry_requirement,
    {
        Invalid { retry_requirement }
    }

    /// A scope's context is dropped: this error keeps only the
    /// requirement.
    pub fn from_context<C: Context>(self, input: &MaybeString, context: &C) -> (r: Invalid)
        ensures
            r == self,
    {
        self
    }

    /// The stored requirement.
    pub fn to_retry_requirement(&self) -> (r: Option<RetryRequirement>)
        ensures
            r == self.retry_requirement_spec(),
    {
        self.retry_requirement
    }

    /// Final exactly when no requirement is stored.
    pub fn is_fatal(&self) -> (r: bool)
        ensures
            r == (self.retry_requirement_spec() is None),
    {
        self.retry_requirement.is_none()
    }

    /// Keeps only the retry classification of a failed exact-value
    /// requirement.
    pub fn from_value(err: ExpectedValue) -> (r: Invalid)
        ensures
            match r.retry_requirement_spec() {
                Some(req) => !err.is_fatal_spec() && err.value_spec().len() > err.span_spec()@.len()
                    && req.needed_spec() == err.value_spec().len() - err.span_spec()@.len(),
                None => err.is_fatal_spec() || err.value_spec().len() <= err.span_spec()@.len(),
            },
    {
        Invalid { retry_requirement: err.to_retry_requirement() }
    }

    /// Keeps only the retry classification of a failed length
    /// requirement.
    pub fn from_length(err: ExpectedLength) -> (r: Invalid)
        ensures
            match r.retry_requirement_spec() {
                Some(req) => !err.is_fatal_spec() && err.min_spec() > err.span_spec()@.len()
                    && req.needed_spec() == err.min_spec() - err.span_spec()@.len(),
                None => err.is_fatal_spec() || err.min_spec() <= err.span_spec()@.len(),
            },
    {
        Invalid { retry_requirement: err.to_retry_requirement() }
    }

    /// Keeps only the retry classification of semantically invalid
    /// content.
    pub fn from_valid(err: ExpectedValid) -> (r: Invalid)
        ensures
            r.retry_requirement_spec() == (if err.input_spec().bound_spec()
                == crate::bound::Bound::Both {
                Option::<RetryRequirement>::None
            } else {
                err.retry_requirement_spec()
            }),
    {
        Invalid { retry_requirement: err.to_retry_requirement() }
    }

    /// Keeps only the retry classification a full error delegates to its
    /// wrapped shape.
    pub fn from_expected(err: Expected) -> (r: Invalid)
        ensures
            match r.retry_requirement_spec() {
                Some(req) => err.retry_needed_spec() == Some(req.needed_spec()),
                None => err.retry_needed_spec() is None,
            },
    {
        Invalid { retry_requirement: err.to_retry_requirement() }
    }
}

} // verus!
