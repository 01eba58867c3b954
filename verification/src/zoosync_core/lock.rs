//! A named lock: a robust mutex at the start of a shared memory segment.

use crate::attach::{after_create, after_initialize, after_open, Attach, Attachment};
use crate::pyerr::{Exception, PyFailure};
use crate::zoosync_core::shm::{ShmError, ShmSegment};
use vstd::prelude::*;

verus! {

/// The size of a lock's segment.
pub const LOCK_SIZE: usize = 4096;

/// A lock: its segment, and the address of the mutex in it.
#[derive(Clone, Copy, Debug, PartialEq, Eq, Structural)]
pub struct ZooLock {
    pub shm: ShmSegment,
    pub mutex: usize,
}

/// What the attachment to a lock does next.
#[derive(Clone, Copy, Debug, PartialEq, Eq, Structural)]
pub enum LockAction {
    /// Open the segment that has the lock's name.
    Open { size: usize },
    /// Make the segment that has the lock's name.
    Create { size: usize },
    /// Make the mutex.
    InitMutex { address: usize },
    /// Nothing: the attachment has ended.
    Return,
}

/// A lock that is being attached to.
pub struct LockOpening {
    pub name: String,
    pub stage: Attach<ShmSegment>,
}

impl ZooLock {
    /// Begins to attach to the lock with this name.
    pub fn new(name: String) -> (opening: LockOpening)
        ensures
            opening.name == name,
            opening.stage@ == Attachment::<ShmSegment>::Open,
    {
        LockOpening { name, stage: Attach::Open }
    }
}

impl LockOpening {
    /// What to do next.
    pub fn action(&self) -> (action: LockAction)
        ensures
            action == match self.stage@ {
                Attachment::Open => LockAction::Open { size: LOCK_SIZE },
                Attachment::Create => LockAction::Create { size: LOCK_SIZE },
                Attachment::Initialize(segment) => LockAction::InitMutex { address: segment.ptr },
                Attachment::Ready(_) | Attachment::Failed(_) => LockAction::Return,
            },
    {
        match &self.stage {
            Attach::Open => LockAction::Open { size: LOCK_SIZE },
            Attach::Create => LockAction::Create { size: LOCK_SIZE },
            Attach::Initialize(segment) => LockAction::InitMutex { address: segment.ptr },
            Attach::Ready(_) => LockAction::Return,
            Attach::Failed(_) => LockAction::Return,
        }
    }

    /// Tells the outcome of `Open` or `Create`.
    pub fn segment(self, result: Result<ShmSegment, ShmError>) -> (opening: LockOpening)
        requires
            self.stage@ is Open || self.stage@ is Create,
        ensures
            opening.name == self.name,
            opening.stage@ == match (self.stage@, result) {
                (Attachment::Open, Ok(segment)) => after_open(Some(segment)),
                (Attachment::Open, Err(_)) => after_open(None::<ShmSegment>),
                (_, Ok(segment)) => after_create(
                    Some(segment),
                    "Failed to create shm: "@,
                    Seq::empty(),
                ),
                (_, Err(e)) => after_create(
                    None::<ShmSegment>,
                    "Failed to create shm: "@,
                    e.message_spec(),
                ),
            },
    {
        let stage = match self.stage {
            Attach::Open => match result {
                Ok(segment) => Attach::opened(Some(segment)),
                Err(_) => Attach::opened(None),
            },
            _ => match result {
                Ok(segment) => Attach::created(Ok(segment), "Failed to create shm: "),
                Err(e) => Attach::created(Err(e.message()), "Failed to create shm: "),
            },
        };
        LockOpening { name: self.name, stage }
    }

    /// Tells the outcome of `InitMutex`: nothing, or the text of the mutex's error.
    pub fn initialized(self, result: Result<(), String>) -> (opening: LockOpening)
        requires
            self.stage@ is Initialize,
        ensures
            opening.name == self.name,
            opening.stage@ == match result {
                Ok(_) => after_initialize(
                    self.stage@->Initialize_0,
                    true,
                    "Failed into init mutex: "@,
                    Seq::empty(),
                ),
                Err(cause) => after_initialize(
                    self.stage@->Initialize_0,
                    false,
                    "Failed into init mutex: "@,
                    cause@,
                ),
            },
    {
        let stage = match self.stage {
            Attach::Initialize(segment) => Attach::initialized(
                segment,
                result,
                "Failed into init mutex: ",
            ),
            other => other,
        };
        LockOpening { name: self.name, stage }
    }

    /// The lock, or the failure, once the attachment has ended; otherwise the
    /// attachment itself. The mutex is at the start of the segment.
    pub fn result(self) -> (result: Result<Result<ZooLock, PyFailure>, LockOpening>)
        ensures
            result == match self.stage {
                Attach::Ready(segment) => Ok(Ok(ZooLock { shm: segment, mutex: segment.ptr })),
                Attach::Failed(failure) => Ok(Err(failure)),
                _ => Err(self),
            },
    {
        match self.stage {
            Attach::Ready(segment) => Ok(Ok(ZooLock { shm: segment, mutex: segment.ptr })),
            Attach::Failed(failure) => Ok(Err(failure)),
            _ => Err(self),
        }
    }
}

/// A lock is opened first, by its name, as a segment of 4096 bytes; only if it cannot be
/// opened it is made, of the same size. Only in a new segment the mutex is made, at its
/// start.
pub proof fn locks_are_opened_or_made(
    name: String,
    begun: LockOpening,
    opening: LockOpening,
    action: LockAction,
)
    requires
        call_ensures(ZooLock::new, (name,), begun),
        call_ensures(LockOpening::action, (&opening,), action),
    ensures
        begun.name == name,
        begun.stage is Open,
        match opening.stage {
            Attach::Open => action matches LockAction::Open { size } && size == 4096,
            Attach::Create => action matches LockAction::Create { size } && size == 4096,
            Attach::Initialize(segment) => action matches LockAction::InitMutex { address }
                && address == segment.ptr,
            Attach::Ready(_) | Attach::Failed(_) => action is Return,
        },
{
}

/// A segment that was opened is used; one that cannot be opened, for whatever reason, is
/// made; one that was made is initialized. If it cannot be made, the attachment fails and
/// tells why.
pub proof fn segments_are_opened_or_made(
    opening: LockOpening,
    result: Result<ShmSegment, ShmError>,
    next: LockOpening,
)
    requires
        opening.stage is Open || opening.stage is Create,
        call_ensures(LockOpening::segment, (opening, result), next),
    ensures
        call_requires(LockOpening::segment, (opening, result)),
        next.name == opening.name,
        opening.stage is Open ==> match result {
            Ok(segment) => next.stage == Attach::Ready(segment),
            Err(_) => next.stage is Create,
        },
        opening.stage is Create ==> match result {
            Ok(segment) => next.stage == Attach::Initialize(segment),
            Err(e) => next.stage matches Attach::Failed(failure) && failure.exception
                == Exception::RuntimeError && failure.message@ == "Failed to create shm: "@
                + e.message_spec(),
        },
{
}

/// A lock in a new segment can be used once its mutex is made; if that fails, so does
/// the attachment, which tells why.
pub proof fn new_locks_are_initialized(
    opening: LockOpening,
    segment: ShmSegment,
    result: Result<(), String>,
    next: LockOpening,
)
    requires
        opening.stage == Attach::Initialize(segment),
        call_ensures(LockOpening::initialized, (opening, result), next),
    ensures
        call_requires(LockOpening::initialized, (opening, result)),
        next.name == opening.name,
        match result {
            Ok(_) => next.stage == Attach::Ready(segment),
            Err(cause) => next.stage matches Attach::Failed(failure) && failure.exception
                == Exception::RuntimeError && failure.message@ == "Failed into init mutex: "@ + cause@,
        },
{
}

/// The lock is there exactly when the attachment is ready: in the segment that was opened
/// or made, with the mutex at its start, which is where it was made.
pub proof fn locks_lie_in_their_segments(
    opening: LockOpening,
    result: Result<Result<ZooLock, PyFailure>, LockOpening>,
)
    requires
        call_ensures(LockOpening::result, (opening,), result),
    ensures
        match opening.stage {
            Attach::Ready(segment) => result matches Ok(Ok(lock)) && lock.shm == segment
                && lock.mutex == segment.ptr,
            Attach::Failed(failure) => result matches Ok(Err(reported)) && reported == failure,
            _ => result matches Err(same) && same == opening,
        },
{
}

} // verus!
