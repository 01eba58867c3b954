//! Failures as Python sees them.

use crate::text::join;
use vstd::prelude::*;

verus! {

/// The exception that stands for a failure.
#[derive(Clone, Copy, Debug, PartialEq, Eq, Structural)]
pub enum Exception {
    LockRecovered,
    RuntimeError,
}

/// A failure: an exception with its message.
#[derive(Debug)]
pub struct PyFailure {
    pub exception: Exception,
    pub message: String,
}

/// A failure, with its message as a sequence of characters.
pub struct Failure {
    pub exception: Exception,
    pub message: Seq<char>,
}

impl View for PyFailure {
    type V = Failure;

    open spec fn view(&self) -> Failure {
        Failure { exception: self.exception, message: self.message@ }
    }
}

/// A runtime error: in what it happened, and why.
pub open spec fn runtime_error(context: Seq<char>, cause: Seq<char>) -> Failure {
    Failure { exception: Exception::RuntimeError, message: context + cause }
}

/// A runtime error with a fixed message.
pub open spec fn plain_error(message: Seq<char>) -> Failure {
    Failure { exception: Exception::RuntimeError, message }
}

impl PyFailure {
    /// A runtime error with a fixed message.
    pub fn plain(message: &str) -> (failure: PyFailure)
        ensures
            failure@ == plain_error(message@),
    {
        PyFailure { exception: Exception::RuntimeError, message: message.to_owned() }
    }

    /// A runtime error: in what it happened, and why.
    pub fn runtime(context: &str, cause: &str) -> (failure: PyFailure)
        ensures
            failure@ == runtime_error(context@, cause@),
    {
        PyFailure { exception: Exception::RuntimeError, message: join(context, cause) }
    }
}

/// A failure is a runtime error; its message is the context, then the whole cause.
pub proof fn failures_name_context_and_cause(context: &str, cause: &str, failure: PyFailure)
    requires
        call_ensures(PyFailure::runtime, (context, cause), failure),
    ensures
        failure.exception == Exception::RuntimeError,
        failure.message@.take(context@.len() as int) == context@,
        failure.message@.skip(context@.len() as int) == cause@,
{
    assert(failure.message@.take(context@.len() as int) =~= context@);
    assert(failure.message@.skip(context@.len() as int) =~= cause@);
}

/// A failure with a fixed message is a runtime error with that message.
pub proof fn plain_failures_keep_their_message(message: &str, failure: PyFailure)
    requires
        call_ensures(PyFailure::plain, (message,), failure),
    ensures
        failure.exception == Exception::RuntimeError,
        failure.message@ == message@,
{
}

/// What a failure says, seen as characters, is what it holds.
pub proof fn failures_are_seen_as_they_are(failure: PyFailure, context: Seq<char>, cause: Seq<char>)
    ensures
        failure@.exception == failure.exception,
        failure@.message == failure.message@,
        failure@ == runtime_error(context, cause) <==> failure.exception
            == Exception::RuntimeError && failure.message@ == context + cause,
        failure@ == plain_error(context) <==> failure.exception == Exception::RuntimeError
            && failure.message@ == context,
{
}

} // verus!
