//! A queue of byte messages in a shared memory region.
//!
//! The region starts with a header (mutex, two condition variables, positions);
//! the rest is a circular buffer. Every operation takes the mutex, waits on a
//! condition variable until it can move a message, moves it, wakes the other side
//! and releases the mutex. An operation is a value that names its next action and
//! is told the action's outcome.

use crate::frame::{frame, le32, le32_value, length_field, length_value, LENGTH_BYTES};
use crate::ring::{
    one_wrap, read_block_at, ring_read, ring_write, write_block_at, writes_in_succession,
};
use crate::sync::{CondError, MutexError};
use crate::text::join;
use vstd::prelude::*;

verus! {

/// Why an operation on the queue failed.
#[derive(Clone, Copy, Debug, PartialEq, Eq, Structural)]
pub enum QueueError {
    Mutex(MutexError),
    Cond(CondError),
    BufferTooSmall,
}

impl QueueError {
    /// The error in words. `cause` is the text of the mutex's or the condition
    /// variable's error.
    pub open spec fn message_spec(self, cause: Seq<char>) -> Seq<char> {
        match self {
            QueueError::Mutex(_) => "Mutex error: "@ + cause,
            QueueError::Cond(_) => "Cond error: "@ + cause,
            QueueError::BufferTooSmall => "Buffer too small"@,
        }
    }

    /// The error in words. `cause` is the text of the mutex's or the condition
    /// variable's error.
    pub fn message(&self, cause: &str) -> (text: String)
        ensures
            text@ == self.message_spec(cause@),
    {
        match self {
            QueueError::Mutex(_) => join("Mutex error: ", cause),
            QueueError::Cond(_) => join("Cond error: ", cause),
            QueueError::BufferTooSmall => "Buffer too small".to_owned(),
        }
    }
}

/// The metadata words of the header. Positions count bytes since the queue was
/// made and never wrap around the buffer.
#[derive(Clone, Copy, Debug, PartialEq, Eq, Structural)]
pub struct RingBufferHeader {
    pub read_pos: u64,
    pub write_pos: u64,
    pub capacity: u64,
    pub init_done: u64,
}

/// Tells whether a block lies within a buffer, wrapped around its end once at most.
fn fits_once_wrapped(pos: u64, len: u64, capacity: u64) -> (fits: bool)
    requires
        capacity > 0,
    ensures
        fits == one_wrap(pos as int, len as int, capacity as int),
{
    let offset: u64 = pos % capacity;
    len <= capacity || len - capacity <= capacity - offset
}

impl RingBufferHeader {
    /// The bytes between the two positions fit into the buffer, which has the
    /// recorded capacity.
    pub open spec fn wf(self, buffer: Seq<u8>) -> bool {
        &&& self.read_pos <= self.write_pos
        &&& self.write_pos - self.read_pos <= self.capacity
        &&& self.capacity == buffer.len()
    }

    /// The bytes that were written and not read yet.
    pub open spec fn pending(self, buffer: Seq<u8>) -> Seq<u8> {
        ring_read(buffer, self.read_pos as int, (self.write_pos - self.read_pos) as nat)
    }

    /// Whether a message of `len` payload bytes fits into the free space.
    pub open spec fn has_room(self, len: nat) -> bool {
        self.capacity - (self.write_pos - self.read_pos) >= len + LENGTH_BYTES
    }

    /// The header after a message of `len` payload bytes was written.
    pub open spec fn after_put(self, len: nat) -> RingBufferHeader {
        RingBufferHeader { write_pos: (self.write_pos + LENGTH_BYTES + len) as u64, ..self }
    }

    /// The payload length that the next length field records.
    pub open spec fn next_len(self, buffer: Seq<u8>) -> nat {
        le32_value(ring_read(buffer, self.read_pos as int, 4))
    }

    /// The payload that follows the next length field.
    pub open spec fn next_payload(self, buffer: Seq<u8>) -> Seq<u8> {
        ring_read(buffer, self.read_pos + LENGTH_BYTES, self.next_len(buffer))
    }

    /// The header after the next message was read.
    pub open spec fn after_get(self, buffer: Seq<u8>) -> RingBufferHeader {
        RingBufferHeader {
            read_pos: (self.read_pos + LENGTH_BYTES + self.next_len(buffer)) as u64,
            ..self
        }
    }

    /// The next length field and the payload that it announces lie within the
    /// buffer, and the position behind them is a 64-bit number.
    pub open spec fn readable(self, buffer: Seq<u8>) -> bool {
        let capacity = buffer.len() as int;
        &&& self.capacity == buffer.len()
        &&& one_wrap(self.read_pos as int, 4, capacity)
        &&& one_wrap(self.read_pos + LENGTH_BYTES, self.next_len(buffer) as int, capacity)
        &&& self.read_pos + LENGTH_BYTES + self.next_len(buffer) <= u64::MAX
    }

    /// What `try_put` demands: the positions are sound, and the one behind the message
    /// is a 64-bit number.
    pub open spec fn can_put(self, buffer: Seq<u8>, len: nat) -> bool {
        &&& self.wf(buffer)
        &&& self.has_room(len) ==> self.write_pos + LENGTH_BYTES + len <= u64::MAX
    }

    /// What `try_get` demands: a message that is there can be read.
    pub open spec fn can_get(self, buffer: Seq<u8>) -> bool {
        self.write_pos > self.read_pos ==> self.readable(buffer)
    }

    /// Tells whether a message can be handed to `try_put`.
    pub fn check_put(&self, buffer: &[u8], data: &[u8]) -> (can: bool)
        ensures
            can == self.can_put(buffer@, data@.len()),
    {
        let len: u64 = data.len() as u64;
        if self.read_pos > self.write_pos || self.write_pos - self.read_pos > self.capacity
            || self.capacity != buffer.len() as u64 {
            return false;
        }
        let free: u64 = self.capacity - (self.write_pos - self.read_pos);
        if free < LENGTH_BYTES || free - LENGTH_BYTES < len {
            return true;
        }
        self.write_pos <= u64::MAX - LENGTH_BYTES - len
    }

    /// Tells whether `try_get` can be used.
    pub fn check_get(&self, buffer: &[u8]) -> (can: bool)
        ensures
            can == self.can_get(buffer@),
    {
        if self.write_pos <= self.read_pos {
            return true;
        }
        let capacity: u64 = buffer.len() as u64;
        if self.capacity != capacity || capacity == 0 || !fits_once_wrapped(
            self.read_pos,
            4,
            capacity,
        ) || self.read_pos > u64::MAX - LENGTH_BYTES {
            return false;
        }
        let mut field: [u8; 4] = [0u8, 0u8, 0u8, 0u8];
        read_block_at(buffer, self.read_pos, &mut field);
        let len: u64 = length_value(&field) as u64;
        fits_once_wrapped(self.read_pos + LENGTH_BYTES, len, capacity) && self.read_pos
            + LENGTH_BYTES <= u64::MAX - len
    }

    /// Writes a message behind the pending bytes, if it fits. Tells whether it did.
    pub fn try_put(&mut self, buffer: &mut [u8], data: &[u8]) -> (moved: bool)
        requires
            old(self).can_put(old(buffer)@, data@.len()),
        ensures
            moved == old(self).has_room(data@.len()),
            moved ==> *final(self) == old(self).after_put(data@.len()),
            moved ==> final(buffer)@ == ring_write(
                old(buffer)@,
                old(self).write_pos as int,
                frame(data@),
            ),
            !moved ==> *final(self) == *old(self),
            !moved ==> final(buffer)@ == old(buffer)@,
    {
        let len: u64 = data.len() as u64;
        let used: u64 = self.write_pos - self.read_pos;
        let free: u64 = self.capacity - used;
        if free < LENGTH_BYTES || free - LENGTH_BYTES < len {
            return false;
        }
        let field = length_field(len);
        write_block_at(buffer, self.write_pos, &field);
        write_block_at(buffer, self.write_pos + LENGTH_BYTES, data);
        proof {
            writes_in_succession(
                old(buffer)@,
                self.write_pos as int,
                le32(len as int),
                data@,
            );
        }
        self.write_pos = self.write_pos + LENGTH_BYTES + len;
        true
    }

    /// Reads the next message, if there is one.
    pub fn try_get(&mut self, buffer: &[u8]) -> (message: Option<Vec<u8>>)
        requires
            old(self).can_get(buffer@),
        ensures
            message is Some <==> old(self).write_pos > old(self).read_pos,
            message matches Some(data) ==> data@ == old(self).next_payload(buffer@),
            message is Some ==> *final(self) == old(self).after_get(buffer@),
            message is None ==> *final(self) == *old(self),
    {
        if self.write_pos <= self.read_pos {
            return None;
        }
        let mut field: [u8; 4] = [0u8, 0u8, 0u8, 0u8];
        read_block_at(buffer, self.read_pos, &mut field);
        let len: u32 = length_value(&field);
        let mut data: Vec<u8> = vec![0u8; len as usize];
        read_block_at(buffer, self.read_pos + LENGTH_BYTES, &mut data);
        self.read_pos = self.read_pos + LENGTH_BYTES + len as u64;
        Some(data)
    }
}

/// The size of the area for the mutex, and of each area for a condition variable.
pub const SYNC_AREA: usize = 128;

/// Where the words of the header start: behind the mutex and both condition
/// variables.
pub const WORDS_OFFSET: usize = 384;

/// Where the fourth word of the header lies.
pub const INIT_DONE_OFFSET: usize = 408;

/// The size of the header: the synchronization areas and four 64-bit words.
pub const HEADER_SIZE: usize = 416;

/// How long one wait on a condition variable lasts, in milliseconds.
pub const WAIT_MILLIS: u64 = 100;

/// A queue in a memory region: the addresses of its parts.
#[derive(Clone, Copy, Debug, PartialEq, Eq, Structural)]
pub struct RingBuffer {
    pub mutex: usize,
    pub not_empty: usize,
    pub not_full: usize,
    pub header: usize,
    pub buffer: usize,
}

/// What an operation on a queue does next.
#[derive(Clone, Copy, Debug, PartialEq, Eq, Structural)]
pub enum QueueAction {
    /// Acquire the mutex, waiting for it. Whoever finds its owner dead gives it back
    /// before that is told; `LockAttempt` says how.
    Lock { mutex: usize },
    /// Look at the header and the buffer, and move a message if possible.
    Access { header: usize, buffer: usize },
    /// Release the mutex, wait for a wake-up or for the time to pass, and acquire
    /// the mutex again. If its owner is found dead then, it is made consistent, and
    /// the wait has succeeded.
    Wait { cond: usize, mutex: usize, millis: u64 },
    /// Wake everybody who waits on the condition variable.
    Notify { cond: usize },
    /// Release the mutex.
    Unlock { mutex: usize },
    /// Nothing: the operation has ended.
    Return,
}

/// The outcome of an action.
#[derive(Clone, Copy, Debug, PartialEq, Eq)]
pub enum QueueReply {
    /// Of `Lock` and `Unlock`. As the reply to `Lock`, `Recovered` tells that the
    /// previous owner was found dead and that the mutex was made consistent and given
    /// back: the caller does not hold it.
    Mutex(Result<(), MutexError>),
    /// Of `Access`: whether a message was moved.
    Access { moved: bool },
    /// Of `Wait` and `Notify`. A wait that timed out succeeded.
    Cond(Result<(), CondError>),
}

/// How far an operation on a queue has come.
#[derive(Clone, Copy, Debug, PartialEq, Eq, Structural)]
pub enum QueueStage {
    Locking,
    Checking,
    Waiting,
    Notifying,
    Unlocking,
    Done,
    Failed(QueueError),
}

/// What one attempt to acquire the mutex leads to.
#[derive(Clone, Copy, Debug, PartialEq, Eq, Structural)]
pub enum LockStep {
    Held,
    Retry,
    Failed(QueueError),
}

/// How the performance of `Lock` goes on after the mutex's own answer.
#[derive(Clone, Copy, Debug, PartialEq, Eq)]
pub enum LockAttempt {
    /// It is over, with this reply.
    Replied(QueueReply),
    /// The owner was found dead, and the mutex is now the finder's: it is released.
    GiveBack,
}

impl LockAttempt {
    /// What the mutex's answer leads to.
    pub open spec fn of(outcome: Result<(), MutexError>) -> LockAttempt {
        if outcome == Err::<(), MutexError>(MutexError::Recovered) {
            LockAttempt::GiveBack
        } else {
            LockAttempt::Replied(QueueReply::Mutex(outcome))
        }
    }

    /// What the mutex's answer leads to.
    pub fn judge(outcome: Result<(), MutexError>) -> (attempt: LockAttempt)
        ensures
            attempt == LockAttempt::of(outcome),
    {
        match outcome {
            Err(MutexError::Recovered) => LockAttempt::GiveBack,
            _ => LockAttempt::Replied(QueueReply::Mutex(outcome)),
        }
    }

    /// The reply to `Lock` after the mutex was given back, or could not be.
    pub open spec fn given_back_spec(released: Result<(), MutexError>) -> QueueReply {
        match released {
            Ok(_) => QueueReply::Mutex(Err(MutexError::Recovered)),
            Err(e) => QueueReply::Mutex(Err(e)),
        }
    }

    /// The reply to `Lock` after the mutex was given back, or could not be.
    pub fn given_back(released: Result<(), MutexError>) -> (reply: QueueReply)
        ensures
            reply == LockAttempt::given_back_spec(released),
    {
        match released {
            Ok(_) => QueueReply::Mutex(Err(MutexError::Recovered)),
            Err(e) => QueueReply::Mutex(Err(e)),
        }
    }
}

impl QueueStage {
    /// Whether the reply is one to the action of this stage.
    pub open spec fn expects(self, reply: QueueReply) -> bool {
        match self {
            QueueStage::Locking | QueueStage::Unlocking => reply is Mutex,
            QueueStage::Checking => reply is Access,
            QueueStage::Waiting | QueueStage::Notifying => reply is Cond,
            QueueStage::Done | QueueStage::Failed(_) => false,
        }
    }

    /// The stage that follows a reply.
    pub open spec fn next(self, reply: QueueReply) -> QueueStage {
        match (self, reply) {
            (QueueStage::Locking, QueueReply::Mutex(Ok(_))) => QueueStage::Checking,
            (QueueStage::Locking, QueueReply::Mutex(Err(e))) => if e == MutexError::Recovered {
                QueueStage::Locking
            } else {
                QueueStage::Failed(QueueError::Mutex(e))
            },
            (QueueStage::Checking, QueueReply::Access { moved }) => if moved {
                QueueStage::Notifying
            } else {
                QueueStage::Waiting
            },
            (QueueStage::Waiting, QueueReply::Cond(Ok(_))) => QueueStage::Checking,
            (QueueStage::Notifying, QueueReply::Cond(Ok(_))) => QueueStage::Unlocking,
            (_, QueueReply::Cond(Err(e))) => QueueStage::Failed(QueueError::Cond(e)),
            (QueueStage::Unlocking, QueueReply::Mutex(Ok(_))) => QueueStage::Done,
            (_, QueueReply::Mutex(Err(e))) => QueueStage::Failed(QueueError::Mutex(e)),
            _ => self,
        }
    }

    /// Moves on after a reply.
    pub fn advance(self, reply: QueueReply) -> (stage: QueueStage)
        requires
            self.expects(reply),
        ensures
            stage == self.next(reply),
    {
        match (self, reply) {
            (QueueStage::Locking, QueueReply::Mutex(outcome)) => match RingBuffer::lock(outcome) {
                LockStep::Held => QueueStage::Checking,
                LockStep::Retry => QueueStage::Locking,
                LockStep::Failed(e) => QueueStage::Failed(e),
            },
            (QueueStage::Unlocking, QueueReply::Mutex(outcome)) => match outcome {
                Ok(_) => QueueStage::Done,
                Err(e) => QueueStage::Failed(QueueError::Mutex(e)),
            },
            (QueueStage::Checking, QueueReply::Access { moved }) => if moved {
                QueueStage::Notifying
            } else {
                QueueStage::Waiting
            },
            (QueueStage::Waiting, QueueReply::Cond(outcome)) => match outcome {
                Ok(_) => QueueStage::Checking,
                Err(e) => QueueStage::Failed(QueueError::Cond(e)),
            },
            (QueueStage::Notifying, QueueReply::Cond(outcome)) => match outcome {
                Ok(_) => QueueStage::Unlocking,
                Err(e) => QueueStage::Failed(QueueError::Cond(e)),
            },
            _ => self,
        }
    }

    /// The action of this stage, for an operation that waits on `wait` and wakes
    /// those who wait on `wake`.
    pub open spec fn action_spec(self, ring: RingBuffer, wait: usize, wake: usize) -> QueueAction {
        match self {
            QueueStage::Locking => QueueAction::Lock { mutex: ring.mutex },
            QueueStage::Checking => QueueAction::Access {
                header: ring.header,
                buffer: ring.buffer,
            },
            QueueStage::Waiting => QueueAction::Wait {
                cond: wait,
                mutex: ring.mutex,
                millis: WAIT_MILLIS,
            },
            QueueStage::Notifying => QueueAction::Notify { cond: wake },
            QueueStage::Unlocking => QueueAction::Unlock { mutex: ring.mutex },
            QueueStage::Done | QueueStage::Failed(_) => QueueAction::Return,
        }
    }

    fn action(self, ring: &RingBuffer, wait: usize, wake: usize) -> (action: QueueAction)
        ensures
            action == self.action_spec(*ring, wait, wake),
    {
        match self {
            QueueStage::Locking => QueueAction::Lock { mutex: ring.mutex },
            QueueStage::Checking => QueueAction::Access {
                header: ring.header,
                buffer: ring.buffer,
            },
            QueueStage::Waiting => QueueAction::Wait {
                cond: wait,
                mutex: ring.mutex,
                millis: WAIT_MILLIS,
            },
            QueueStage::Notifying => QueueAction::Notify { cond: wake },
            QueueStage::Unlocking => QueueAction::Unlock { mutex: ring.mutex },
            QueueStage::Done | QueueStage::Failed(_) => QueueAction::Return,
        }
    }
}

/// A message on its way into the queue.
pub struct PutBytes<'a> {
    pub ring: RingBuffer,
    pub data: &'a [u8],
    pub stage: QueueStage,
}

impl<'a> PutBytes<'a> {
    /// What to do next.
    pub fn action(&self) -> (action: QueueAction)
        ensures
            action == self.stage.action_spec(self.ring, self.ring.not_full, self.ring.not_empty),
    {
        self.stage.action(&self.ring, self.ring.not_full, self.ring.not_empty)
    }

    /// Tells the outcome of an action other than `Access`.
    pub fn resume(&mut self, reply: QueueReply)
        requires
            old(self).stage.expects(reply),
            !(reply is Access),
        ensures
            final(self).stage == old(self).stage.next(reply),
            final(self).ring == old(self).ring,
            final(self).data == old(self).data,
    {
        self.stage = self.stage.advance(reply);
    }

    /// Performs `Access`: writes the message if it fits.
    pub fn access(&mut self, header: &mut RingBufferHeader, buffer: &mut [u8])
        requires
            old(self).stage == QueueStage::Checking,
            old(header).can_put(old(buffer)@, old(self).data@.len()),
        ensures
            final(self).ring == old(self).ring,
            final(self).data == old(self).data,
            old(header).has_room(old(self).data@.len()) ==> {
                &&& final(self).stage == QueueStage::Notifying
                &&& *final(header) == old(header).after_put(old(self).data@.len())
                &&& final(buffer)@ == ring_write(
                    old(buffer)@,
                    old(header).write_pos as int,
                    frame(old(self).data@),
                )
            },
            !old(header).has_room(old(self).data@.len()) ==> {
                &&& final(self).stage == QueueStage::Waiting
                &&& *final(header) == *old(header)
                &&& final(buffer)@ == old(buffer)@
            },
    {
        let moved = header.try_put(buffer, self.data);
        self.stage = self.stage.advance(QueueReply::Access { moved });
    }

    /// The result, once the operation has ended.
    pub fn result(&self) -> (result: Option<Result<(), QueueError>>)
        ensures
            result == match self.stage {
                QueueStage::Done => Some(Ok(())),
                QueueStage::Failed(e) => Some(Err(e)),
                _ => None,
            },
    {
        match self.stage {
            QueueStage::Done => Some(Ok(())),
            QueueStage::Failed(e) => Some(Err(e)),
            _ => None,
        }
    }
}

/// A message on its way out of the queue.
pub struct GetBytes {
    pub ring: RingBuffer,
    pub data: Vec<u8>,
    pub stage: QueueStage,
}

impl GetBytes {
    /// What to do next.
    pub fn action(&self) -> (action: QueueAction)
        ensures
            action == self.stage.action_spec(self.ring, self.ring.not_empty, self.ring.not_full),
    {
        self.stage.action(&self.ring, self.ring.not_empty, self.ring.not_full)
    }

    /// Tells the outcome of an action other than `Access`.
    pub fn resume(&mut self, reply: QueueReply)
        requires
            old(self).stage.expects(reply),
            !(reply is Access),
        ensures
            final(self).stage == old(self).stage.next(reply),
            final(self).ring == old(self).ring,
            final(self).data == old(self).data,
    {
        self.stage = self.stage.advance(reply);
    }

    /// Performs `Access`: takes the next message if there is one.
    pub fn access(&mut self, header: &mut RingBufferHeader, buffer: &[u8])
        requires
            old(self).stage == QueueStage::Checking,
            old(header).can_get(buffer@),
        ensures
            final(self).ring == old(self).ring,
            old(header).write_pos > old(header).read_pos ==> {
                &&& final(self).stage == QueueStage::Notifying
                &&& final(self).data@ == old(header).next_payload(buffer@)
                &&& *final(header) == old(header).after_get(buffer@)
            },
            old(header).write_pos <= old(header).read_pos ==> {
                &&& final(self).stage == QueueStage::Waiting
                &&& final(self).data == old(self).data
                &&& *final(header) == *old(header)
            },
    {
        let moved = match header.try_get(buffer) {
            Some(data) => {
                self.data = data;
                true
            },
            None => false,
        };
        self.stage = self.stage.advance(QueueReply::Access { moved });
    }

    /// The result, once the operation has ended; otherwise the operation itself.
    pub fn result(self) -> (result: Result<Result<Vec<u8>, QueueError>, GetBytes>)
        ensures
            result == match self.stage {
                QueueStage::Done => Ok(Ok(self.data)),
                QueueStage::Failed(e) => Ok(Err(e)),
                _ => Err(self),
            },
    {
        match self.stage {
            QueueStage::Done => Ok(Ok(self.data)),
            QueueStage::Failed(e) => Ok(Err(e)),
            _ => Err(self),
        }
    }
}

/// What the making of a queue does next.
#[derive(Clone, Copy, Debug, PartialEq, Eq, Structural)]
pub enum InitAction {
    /// Make a process-shared robust mutex at the address.
    InitMutex { address: usize },
    /// Make a process-shared condition variable at the address.
    InitCond { address: usize },
    /// Store the words at the address, in the order of the fields.
    StoreHeader { address: usize, header: RingBufferHeader },
}

/// The outcome of an action.
#[derive(Clone, Copy, Debug, PartialEq, Eq)]
pub enum InitReply {
    Mutex(Result<(), MutexError>),
    Cond(Result<(), CondError>),
    Stored,
}

/// How far the making of a queue has come.
#[derive(Clone, Copy, Debug, PartialEq, Eq, Structural)]
pub enum InitStage {
    Mutex,
    NotEmpty,
    NotFull,
    Words,
}

/// A queue that is being made.
#[derive(Clone, Copy, Debug, PartialEq, Eq, Structural)]
pub struct RingInit {
    pub ptr: usize,
    pub size: usize,
    pub stage: InitStage,
}

/// What an outcome leads to.
#[derive(Clone, Copy, Debug, PartialEq, Eq, Structural)]
pub enum InitProgress {
    Pending(RingInit),
    Ready(RingBuffer),
    Failed(QueueError),
}

impl RingInit {
    /// The region holds the header and at least one byte more.
    pub open spec fn wf(self) -> bool {
        &&& self.size > HEADER_SIZE
        &&& self.ptr + HEADER_SIZE <= usize::MAX
    }

    /// The words of a new queue: both positions at the start, the capacity all that
    /// the header leaves of the region, and the mark that the queue is ready.
    pub open spec fn words(self) -> RingBufferHeader {
        RingBufferHeader {
            read_pos: 0,
            write_pos: 0,
            capacity: (self.size - HEADER_SIZE) as u64,
            init_done: 1,
        }
    }

    /// The action of this stage.
    pub open spec fn action_spec(self) -> InitAction {
        match self.stage {
            InitStage::Mutex => InitAction::InitMutex { address: self.ptr },
            InitStage::NotEmpty => InitAction::InitCond { address: (self.ptr + SYNC_AREA) as usize },
            InitStage::NotFull => InitAction::InitCond {
                address: (self.ptr + 2 * SYNC_AREA) as usize,
            },
            InitStage::Words => InitAction::StoreHeader {
                address: (self.ptr + WORDS_OFFSET) as usize,
                header: self.words(),
            },
        }
    }

    /// What to do next.
    pub fn action(&self) -> (action: InitAction)
        requires
            self.wf(),
        ensures
            action == self.action_spec(),
    {
        match self.stage {
            InitStage::Mutex => InitAction::InitMutex { address: self.ptr },
            InitStage::NotEmpty => InitAction::InitCond { address: self.ptr + SYNC_AREA },
            InitStage::NotFull => InitAction::InitCond { address: self.ptr + 2 * SYNC_AREA },
            InitStage::Words => InitAction::StoreHeader {
                address: self.ptr + WORDS_OFFSET,
                header: RingBufferHeader {
                    read_pos: 0,
                    write_pos: 0,
                    capacity: (self.size - HEADER_SIZE) as u64,
                    init_done: 1,
                },
            },
        }
    }

    /// Whether the reply is one to the action of this stage.
    pub open spec fn expects(self, reply: InitReply) -> bool {
        match self.stage {
            InitStage::Mutex => reply is Mutex,
            InitStage::NotEmpty | InitStage::NotFull => reply is Cond,
            InitStage::Words => reply is Stored,
        }
    }

    /// What a reply leads to.
    pub open spec fn next(self, reply: InitReply) -> InitProgress {
        match (self.stage, reply) {
            (_, InitReply::Mutex(Err(e))) => InitProgress::Failed(QueueError::Mutex(e)),
            (_, InitReply::Cond(Err(e))) => InitProgress::Failed(QueueError::Cond(e)),
            (InitStage::Mutex, _) => InitProgress::Pending(
                RingInit { stage: InitStage::NotEmpty, ..self },
            ),
            (InitStage::NotEmpty, _) => InitProgress::Pending(
                RingInit { stage: InitStage::NotFull, ..self },
            ),
            (InitStage::NotFull, _) => InitProgress::Pending(
                RingInit { stage: InitStage::Words, ..self },
            ),
            (InitStage::Words, _) => InitProgress::Ready(RingBuffer::at(self.ptr as int)),
        }
    }

    /// Moves on after a reply.
    pub fn advance(self, reply: InitReply) -> (progress: InitProgress)
        requires
            self.wf(),
            self.expects(reply),
        ensures
            progress == self.next(reply),
    {
        match reply {
            InitReply::Mutex(Err(e)) => {
                return InitProgress::Failed(QueueError::Mutex(e));
            },
            InitReply::Cond(Err(e)) => {
                return InitProgress::Failed(QueueError::Cond(e));
            },
            _ => {},
        }
        match self.stage {
            InitStage::Mutex => InitProgress::Pending(
                RingInit { ptr: self.ptr, size: self.size, stage: InitStage::NotEmpty },
            ),
            InitStage::NotEmpty => InitProgress::Pending(
                RingInit { ptr: self.ptr, size: self.size, stage: InitStage::NotFull },
            ),
            InitStage::NotFull => InitProgress::Pending(
                RingInit { ptr: self.ptr, size: self.size, stage: InitStage::Words },
            ),
            InitStage::Words => InitProgress::Ready(RingBuffer::place(self.ptr)),
        }
    }
}

/// A queue that its maker may not have finished.
#[derive(Clone, Copy, Debug, PartialEq, Eq, Structural)]
pub struct RingOpening {
    pub ring: RingBuffer,
}

impl RingOpening {
    /// Where the word lies that tells whether the queue is ready.
    pub fn init_done_address(&self) -> (address: usize)
        requires
            self.ring.header + HEADER_SIZE <= usize::MAX,
        ensures
            address == self.ring.header + INIT_DONE_OFFSET,
    {
        self.ring.header + INIT_DONE_OFFSET
    }

    /// The queue, unless the word is still zero.
    pub fn poll(&self, init_done: u64) -> (ring: Option<RingBuffer>)
        ensures
            ring == if init_done == 0 {
                None::<RingBuffer>
            } else {
                Some(self.ring)
            },
    {
        if init_done == 0 {
            None
        } else {
            Some(self.ring)
        }
    }
}

impl RingBuffer {
    /// The queue in the region that starts at `ptr`.
    pub open spec fn at(ptr: int) -> RingBuffer {
        RingBuffer {
            mutex: ptr as usize,
            not_empty: (ptr + SYNC_AREA) as usize,
            not_full: (ptr + 2 * SYNC_AREA) as usize,
            header: ptr as usize,
            buffer: (ptr + HEADER_SIZE) as usize,
        }
    }

    fn place(ptr: usize) -> (ring: RingBuffer)
        requires
            ptr + HEADER_SIZE <= usize::MAX,
        ensures
            ring == RingBuffer::at(ptr as int),
    {
        RingBuffer {
            mutex: ptr,
            not_empty: ptr + SYNC_AREA,
            not_full: ptr + 2 * SYNC_AREA,
            header: ptr,
            buffer: ptr + HEADER_SIZE,
        }
    }

    /// Judges one attempt to acquire the mutex. When the previous owner died, and the
    /// mutex was given back, the attempt is repeated.
    pub fn lock(outcome: Result<(), MutexError>) -> (step: LockStep)
        ensures
            step == match outcome {
                Ok(_) => LockStep::Held,
                Err(e) => if e == MutexError::Recovered {
                    LockStep::Retry
                } else {
                    LockStep::Failed(QueueError::Mutex(e))
                },
            },
    {
        match outcome {
            Ok(_) => LockStep::Held,
            Err(MutexError::Recovered) => LockStep::Retry,
            Err(e) => LockStep::Failed(QueueError::Mutex(e)),
        }
    }

    /// Begins to make a queue in the `size` bytes at `ptr`. The region must hold the
    /// header and at least one byte more.
    pub fn initialize_at(ptr: usize, size: usize) -> (init: Result<RingInit, QueueError>)
        requires
            size > HEADER_SIZE ==> ptr + HEADER_SIZE <= usize::MAX,
        ensures
            init == if size <= HEADER_SIZE {
                Err::<RingInit, QueueError>(QueueError::BufferTooSmall)
            } else {
                Ok(RingInit { ptr, size, stage: InitStage::Mutex })
            },
    {
        if size <= HEADER_SIZE {
            return Err(QueueError::BufferTooSmall);
        }
        Ok(RingInit { ptr, size, stage: InitStage::Mutex })
    }

    /// Begins to use the queue that somebody makes in the `size` bytes at `ptr`.
    pub fn from_ptr(ptr: usize, size: usize) -> (opening: RingOpening)
        requires
            size >= HEADER_SIZE,
            ptr + HEADER_SIZE <= usize::MAX,
        ensures
            opening.ring == RingBuffer::at(ptr as int),
    {
        RingOpening { ring: RingBuffer::place(ptr) }
    }

    /// Begins to send a message.
    pub fn put_bytes<'a>(&self, data: &'a [u8]) -> (op: PutBytes<'a>)
        ensures
            op.ring == *self,
            op.data == data,
            op.stage == QueueStage::Locking,
    {
        PutBytes { ring: *self, data, stage: QueueStage::Locking }
    }

    /// Begins to receive a message.
    pub fn get_bytes(&self) -> (op: GetBytes)
        ensures
            op.ring == *self,
            op.data@.len() == 0,
            op.stage == QueueStage::Locking,
    {
        GetBytes { ring: *self, data: Vec::new(), stage: QueueStage::Locking }
    }
}

} // verus!
