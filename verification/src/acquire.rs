//! Acquiring a lock: first without waiting, then, if somebody holds it, with.

use crate::pyerr::{runtime_error, Exception, Failure, PyFailure};
use crate::sync::{MutexError, Robust};
use vstd::prelude::*;

verus! {

/// How far the acquisition of a lock has come.
#[derive(Clone, Copy, Debug, PartialEq, Eq, Structural)]
pub enum Acquire {
    /// The next thing is to try, without waiting.
    Trying,
    /// The next thing is to wait for the lock, while other threads run.
    Blocking,
    /// The lock was acquired.
    Held,
    /// The previous owner died.
    Recovered,
    /// The lock could not be acquired.
    Failed(MutexError),
}

impl Acquire {
    /// Whether an attempt is due.
    pub open spec fn is_pending(self) -> bool {
        self is Trying || self is Blocking
    }

    /// What the outcome of an attempt leads to.
    pub open spec fn next(self, outcome: Result<(), MutexError>) -> Acquire {
        match outcome {
            Ok(_) => Acquire::Held,
            Err(e) => if e == MutexError::Recovered {
                Acquire::Recovered
            } else if e == MutexError::Busy && self is Trying {
                Acquire::Blocking
            } else {
                Acquire::Failed(e)
            },
        }
    }

    /// An acquisition before its first attempt.
    pub fn begin() -> (acquire: Acquire)
        ensures
            acquire == Acquire::Trying,
    {
        Acquire::Trying
    }

    /// Moves on after an attempt.
    pub fn advance(self, outcome: Result<(), MutexError>) -> (acquire: Acquire)
        requires
            self.is_pending(),
        ensures
            acquire == self.next(outcome),
    {
        match outcome {
            Ok(_) => Acquire::Held,
            Err(MutexError::Recovered) => Acquire::Recovered,
            Err(MutexError::Busy) => match self {
                Acquire::Trying => Acquire::Blocking,
                _ => Acquire::Failed(MutexError::Busy),
            },
            Err(e) => Acquire::Failed(e),
        }
    }

    /// The failure that an acquisition ended with, if it did. `cause` is the text of
    /// the mutex's error.
    pub open spec fn failure_spec(self, cause: Seq<char>) -> Option<Failure> {
        match self {
            Acquire::Recovered => Some(
                Failure {
                    exception: Exception::LockRecovered,
                    message: "Lock recovered from dead process"@,
                },
            ),
            Acquire::Failed(_) => Some(runtime_error("Lock failure: "@, cause)),
            _ => None,
        }
    }

    /// The failure that an acquisition ended with, if it did. `cause` is the text of
    /// the mutex's error.
    pub fn failure(&self, cause: &str) -> (failure: Option<PyFailure>)
        ensures
            match failure {
                Some(f) => self.failure_spec(cause@) == Some(f@),
                None => self.failure_spec(cause@) is None,
            },
    {
        match *self {
            Acquire::Recovered => Some(
                PyFailure {
                    exception: Exception::LockRecovered,
                    message: "Lock recovered from dead process".to_owned(),
                },
            ),
            Acquire::Failed(_) => Some(PyFailure::runtime("Lock failure: ", cause)),
            _ => None,
        }
    }
}

/// The failure of a release, if it did fail. `cause` is the text of the mutex's error.
pub open spec fn release_failure(
    outcome: Result<(), MutexError>,
    cause: Seq<char>,
) -> Option<Failure> {
    match outcome {
        Ok(_) => None,
        Err(_) => Some(runtime_error("Unlock failed: "@, cause)),
    }
}

/// Judges the outcome of a release. `cause` is the text of the mutex's error.
pub fn release(outcome: Result<(), MutexError>, cause: &str) -> (result: Result<(), PyFailure>)
    ensures
        match result {
            Ok(_) => release_failure(outcome, cause@) is None,
            Err(failure) => release_failure(outcome, cause@) == Some(failure@),
        },
{
    match outcome {
        Ok(_) => Ok(()),
        Err(_) => Err(PyFailure::runtime("Unlock failed: ", cause)),
    }
}

/// An acquisition takes two attempts at most, and it waits only if the first attempt
/// found the lock in somebody's hands. It ends with the lock exactly if its last
/// attempt succeeded.
pub proof fn at_most_two_attempts(first: Result<(), MutexError>, second: Result<(), MutexError>)
    ensures
        Acquire::Trying.next(first).is_pending() <==> first == Err::<(), MutexError>(
            MutexError::Busy,
        ),
        Acquire::Trying.next(first).is_pending() ==> {
            &&& Acquire::Trying.next(first) == Acquire::Blocking
            &&& !Acquire::Blocking.next(second).is_pending()
        },
        Acquire::Trying.next(first) is Held <==> first is Ok,
        Acquire::Blocking.next(second) is Held <==> second is Ok,
{
}

/// Whenever the previous owner is found dead, at the first attempt or while waiting,
/// the acquisition ends with the same failure.
pub proof fn recovery_is_reported(stage: Acquire, cause: Seq<char>)
    requires
        stage.is_pending(),
    ensures
        stage.next(Err(MutexError::Recovered)).failure_spec(cause) == Some(
            Failure {
                exception: Exception::LockRecovered,
                message: "Lock recovered from dead process"@,
            },
        ),
{
}

/// How an acquisition by `who` ends, and the mutex afterwards, if the mutex is in the
/// state `tried` when it is tried, and in the state `freed` when a wait for it ends.
pub open spec fn acquisition(who: nat, tried: Robust, freed: Robust) -> (Acquire, Robust) {
    let (outcome, after) = tried.attempt(who, false)->0;
    match Acquire::Trying.next(outcome) {
        Acquire::Blocking => {
            let (second, last) = freed.attempt(who, true)->0;
            (Acquire::Blocking.next(second), last)
        },
        ended => (ended, after),
    }
}

/// However the mutex is found, and however a wait for it ends, whoever acquires it or
/// is told of the recovery owns it then, in a consistent state. A wait is over only
/// when the mutex is free or its owner is dead.
pub proof fn acquirer_owns_the_lock(who: nat, tried: Robust, freed: Robust)
    requires
        freed.attempt(who, true) is Some,
    ensures
        ({
            let (ended, after) = acquisition(who, tried, freed);
            &&& ended is Held || ended is Recovered
            &&& after == Robust::owned_by(who)
        }),
{
}

/// A lock whose owner died without releasing it keeps nobody waiting: the next
/// acquisition, whether it tries or waits, ends with the report of the recovery, and
/// whoever gets the report owns the lock. The release then succeeds, and after that
/// anybody acquires the lock plainly.
pub proof fn recovered_lock_is_owned(
    lock: Robust,
    who: nat,
    waits: bool,
    next: nat,
    freed: Robust,
    cause: Seq<char>,
)
    requires
        lock.is_orphaned(),
    ensures
        ({
            let stage = if waits {
                Acquire::Blocking
            } else {
                Acquire::Trying
            };
            let (outcome, mine) = lock.attempt(who, waits)->0;
            let (released, given_back) = mine.release(who);
            &&& lock.attempt(who, waits) is Some
            &&& stage.next(outcome) == Acquire::Recovered
            &&& stage.next(outcome).failure_spec(cause) matches Some(failure)
                && failure.exception == Exception::LockRecovered
            &&& mine == Robust::owned_by(who)
            &&& release_failure(released, cause) is None
            &&& given_back == Robust::free()
            &&& acquisition(next, given_back, freed) == (Acquire::Held, Robust::owned_by(next))
            &&& Acquire::Held.failure_spec(cause) is None
        }),
{
}

/// An acquisition begins with an attempt that does not wait. Only if that finds the lock
/// busy there is a second attempt, one that waits. Success ends it with the lock, the
/// finding of a dead owner with the report of that, and anything else with the error.
pub proof fn attempts_decide(stage: Acquire, outcome: Result<(), MutexError>, next: Acquire)
    requires
        stage is Trying || stage is Blocking,
        call_ensures(Acquire::advance, (stage, outcome), next),
    ensures
        call_requires(Acquire::advance, (stage, outcome)),
        call_ensures(Acquire::begin, (), stage) ==> stage is Trying,
        next is Held <==> outcome is Ok,
        next is Recovered <==> outcome == Err::<(), MutexError>(MutexError::Recovered),
        next is Blocking <==> stage is Trying && outcome == Err::<(), MutexError>(
            MutexError::Busy,
        ),
        next matches Acquire::Failed(e) ==> outcome == Err::<(), MutexError>(e),
        !(next is Trying),
{
}

/// An acquisition fails exactly if it ended without the lock in a plain state: with the
/// exception for a recovered lock if its owner had died, and otherwise with a runtime
/// error that ends with the whole cause.
pub proof fn failed_acquisitions_are_reported(
    ended: Acquire,
    cause: &str,
    failure: Option<PyFailure>,
)
    requires
        call_ensures(Acquire::failure, (&ended, cause), failure),
    ensures
        failure is Some <==> ended is Recovered || ended is Failed,
        ended is Recovered ==> (failure matches Some(report) && report.exception
            == Exception::LockRecovered && report.message@ == "Lock recovered from dead process"@),
        ended is Failed ==> (failure matches Some(report) && report.exception
            == Exception::RuntimeError && report.message@ == "Lock failure: "@ + cause@),
{
}

/// A release fails exactly if the mutex was not released, with a runtime error that ends
/// with the whole cause.
pub proof fn failed_releases_are_reported(
    outcome: Result<(), MutexError>,
    cause: &str,
    result: Result<(), PyFailure>,
)
    requires
        call_ensures(release, (outcome, cause), result),
    ensures
        result is Ok <==> outcome is Ok,
        result matches Err(report) ==> report.exception == Exception::RuntimeError
            && report.message@ == "Unlock failed: "@ + cause@,
{
}

} // verus!
