//! Outcomes of the process-shared mutex and condition variable.

use vstd::prelude::*;

verus! {

/// Why a robust mutex was not simply acquired or released.
#[derive(Clone, Copy, Debug, PartialEq, Eq, Structural)]
pub enum MutexError {
    /// The previous owner died while it held the mutex.
    Recovered,
    /// Somebody else holds the mutex.
    Busy,
    /// The operating system refused, with this error number.
    Os(i32),
}

/// Why an operation on a condition variable failed: the error number.
#[derive(Clone, Copy, Debug, PartialEq, Eq, Structural)]
pub struct CondError(pub i32);

/// The error number for a release by somebody who does not own the mutex.
pub const EPERM: i32 = 1;

/// A robust mutex: who owns it, and whether its owner is alive.
pub struct Robust {
    pub owner: Option<nat>,
    pub alive: bool,
}

impl Robust {
    /// A mutex that nobody owns.
    pub open spec fn free() -> Robust {
        Robust { owner: None, alive: true }
    }

    /// A mutex with this living owner, in a consistent state.
    pub open spec fn owned_by(who: nat) -> Robust {
        Robust { owner: Some(who), alive: true }
    }

    /// Whether the owner died without releasing the mutex.
    pub open spec fn is_orphaned(self) -> bool {
        self.owner is Some && !self.alive
    }

    /// The outcome of an attempt of `who` to acquire the mutex, and the mutex
    /// afterwards. One that nobody owns is acquired. One whose owner died is made
    /// consistent and goes to whoever finds that out. While somebody alive owns it, an
    /// attempt that does not wait finds it busy, and one that waits has no outcome.
    pub open spec fn attempt(
        self,
        who: nat,
        waits: bool,
    ) -> Option<(Result<(), MutexError>, Robust)> {
        if self.owner is None {
            Some((Ok(()), Robust::owned_by(who)))
        } else if !self.alive {
            Some((Err(MutexError::Recovered), Robust::owned_by(who)))
        } else if waits {
            None
        } else {
            Some((Err(MutexError::Busy), self))
        }
    }

    /// The outcome of a release by `who`, and the mutex afterwards. Only its owner
    /// releases it.
    pub open spec fn release(self, who: nat) -> (Result<(), MutexError>, Robust) {
        if self == Robust::owned_by(who) {
            (Ok(()), Robust::free())
        } else {
            (Err(MutexError::Os(EPERM)), self)
        }
    }
}

} // verus!
