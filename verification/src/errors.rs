//! Errors that come from inside the service, kept with what is known of
//! where they arose.

use std::sync::Arc;
use vstd::prelude::*;

verus! {

#[verifier::external_type_specification]
#[verifier::external_body]
pub struct ExAnyhowError(anyhow::Error);

#[verifier::external_type_specification]
#[verifier::external_body]
pub struct ExBacktrace(std::backtrace::Backtrace);

/// An error from inside the service. Copies of it share the one error.
#[derive(Clone, Debug)]
pub struct InternalError(Arc<anyhow::Error>);

/// Calls `anyhow::Error::backtrace`. Whether a backtrace was captured
/// depends on the environment in which the error arose, so nothing is
/// claimed of what is returned.
#[verifier::external_body]
fn error_backtrace(error: &anyhow::Error) -> &std::backtrace::Backtrace {
    error.backtrace()
}

/// Calls the `Display` of `anyhow::Error` through `to_string`. The text is
/// that of the outermost error; nothing is claimed of it.
#[verifier::external_body]
fn error_message(error: &anyhow::Error) -> String {
    error.to_string()
}

/// Calls `anyhow::Error::is`: whether the error that was wrapped first is
/// of type `E`. Nothing is claimed of the answer.
#[verifier::external_body]
fn error_is<E: std::fmt::Display + std::fmt::Debug + Send + Sync + 'static>(
    error: &anyhow::Error,
) -> bool {
    error.is::<E>()
}

impl InternalError {
    /// The error that is kept.
    pub closed spec fn error(&self) -> anyhow::Error {
        *self.0
    }

    /// Whether `backtrace` is what `anyhow::Error::backtrace` gave for the
    /// error that is kept.
    pub closed spec fn gave_backtrace(&self, backtrace: &std::backtrace::Backtrace) -> bool {
        call_ensures(error_backtrace, (&self.error(),), backtrace)
    }

    /// Whether `message` is the text that the `Display` of `anyhow::Error`
    /// gave for the error that is kept.
    pub closed spec fn gave_message(&self, message: String) -> bool {
        call_ensures(error_message, (&self.error(),), message)
    }

    /// Whether `answer` is what `anyhow::Error::is` gave, asked for the type
    /// `E`, for the error that is kept.
    pub closed spec fn gave_is<E: std::fmt::Display + std::fmt::Debug + Send + Sync + 'static>(
        &self,
        answer: bool,
    ) -> bool {
        call_ensures(error_is::<E>, (&self.error(),), answer)
    }

    /// The backtrace that was captured when the error arose: the error that
    /// is kept is asked for it, and its answer is handed on as it is.
    pub fn backtrace(&self) -> (res: &std::backtrace::Backtrace)
        ensures
            self.gave_backtrace(res),
    {
        error_backtrace(&self.0)
    }

    /// The message of the error: the error that is kept is asked for its
    /// text, and the text is handed on as it is.
    pub fn to_string(&self) -> (res: String)
        ensures
            self.gave_message(res),
    {
        error_message(&self.0)
    }

    /// Whether the error is of type `E`: the error that is kept is asked,
    /// and its answer is handed on as it is.
    pub fn is<E: std::fmt::Display + std::fmt::Debug + Send + Sync + 'static>(&self) -> (res: bool)
        ensures
            self.gave_is::<E>(res),
    {
        error_is::<E>(&self.0)
    }
}

impl From<anyhow::Error> for InternalError {
    /// Keeps `error`.
    fn from(error: anyhow::Error) -> (res: Self)
        ensures
            res.error() == error,
    {
        Self(Arc::new(error))
    }
}

impl vstd::std_specs::convert::FromSpecImpl<anyhow::Error> for InternalError {
    open spec fn obeys_from_spec() -> bool {
        true
    }

    closed spec fn from_spec(error: anyhow::Error) -> Self {
        InternalError(Arc::new(error))
    }
}

} // verus!
