//! A named queue in a mirrored segment.

use crate::attach::{after_create, after_initialize, after_open, Attach, Attachment};
use crate::pyerr::{runtime_error, Exception, Failure, PyFailure};
use crate::zooparallel_core::shm::{ShmError, ShmSegment};
use crate::zooparallel_core::view::ZooView;
use vstd::prelude::*;

verus! {

/// The number of bytes in a megabyte.
pub const MEGABYTE: usize = 1048576;

/// A queue: its segment.
#[derive(Clone, Copy, Debug, PartialEq, Eq, Structural)]
pub struct ZooQueue {
    pub shm: ShmSegment,
}

/// What the attachment to a queue does next.
#[derive(Clone, Copy, Debug, PartialEq, Eq, Structural)]
pub enum QueueAction {
    /// Open the mirrored segment that has the queue's name.
    OpenMirrored { header_size: usize, data_size: usize },
    /// Make the mirrored segment that has the queue's name.
    CreateMirrored { header_size: usize, data_size: usize },
    /// Make the ring buffer in the new segment.
    InitializeBuffer { ptr: usize, size: usize },
    /// Open the ring buffer in the segment.
    OpenBuffer { ptr: usize, size: usize },
    /// Nothing: the attachment has failed.
    Return,
}

/// A queue that is being attached to.
pub struct QueueOpening {
    pub name: String,
    pub header_size: usize,
    pub data_size: usize,
    pub stage: Attach<ShmSegment>,
}

impl ZooQueue {
    /// Begins to attach to the queue with this name, whose messages have `size_mb`
    /// megabytes and whose header has `header_size` bytes.
    pub fn new(name: String, size_mb: usize, header_size: usize) -> (opening: QueueOpening)
        requires
            size_mb * MEGABYTE <= usize::MAX,
        ensures
            opening.name == name,
            opening.header_size == header_size,
            opening.data_size == size_mb * MEGABYTE,
            opening.stage@ == Attachment::<ShmSegment>::Open,
    {
        QueueOpening { name, header_size, data_size: size_mb * MEGABYTE, stage: Attach::Open }
    }

    /// The failure to send a message. `cause` is the text of the queue's error.
    pub fn put_failure(cause: &str) -> (failure: PyFailure)
        ensures
            failure@ == runtime_error("Queue put error: "@, cause@),
    {
        PyFailure::runtime("Queue put error: ", cause)
    }

    /// The failure to receive a message. `cause` is the text of the queue's error.
    pub fn get_failure(cause: &str) -> (failure: PyFailure)
        ensures
            failure@ == runtime_error("Queue get error: "@, cause@),
    {
        PyFailure::runtime("Queue get error: ", cause)
    }

    /// The failure to commit a position. `cause` is the text of the queue's error.
    pub fn commit_failure(cause: &str) -> (failure: PyFailure)
        ensures
            failure@ == runtime_error("Queue commit_read error: "@, cause@),
    {
        PyFailure::runtime("Queue commit_read error: ", cause)
    }

    /// The failure to remove a queue's name.
    pub fn unlink_failure(error: ShmError) -> (failure: PyFailure)
        ensures
            failure@ == runtime_error("Unlink failed: "@, error.message_spec()),
    {
        PyFailure::runtime("Unlink failed: ", error.message().as_str())
    }

    /// Begins to receive a message without copying it.
    pub fn recv_view() -> (recv: RecvView)
        ensures
            recv == RecvView::Viewing,
    {
        RecvView::Viewing
    }
}

impl QueueOpening {
    /// What to do next.
    pub fn action(&self) -> (action: QueueAction)
        ensures
            action == match self.stage@ {
                Attachment::Open => QueueAction::OpenMirrored {
                    header_size: self.header_size,
                    data_size: self.data_size,
                },
                Attachment::Create => QueueAction::CreateMirrored {
                    header_size: self.header_size,
                    data_size: self.data_size,
                },
                Attachment::Initialize(segment) => QueueAction::InitializeBuffer {
                    ptr: segment.ptr,
                    size: segment.size,
                },
                Attachment::Ready(segment) => QueueAction::OpenBuffer {
                    ptr: segment.ptr,
                    size: segment.size,
                },
                Attachment::Failed(_) => QueueAction::Return,
            },
    {
        match &self.stage {
            Attach::Open => QueueAction::OpenMirrored {
                header_size: self.header_size,
                data_size: self.data_size,
            },
            Attach::Create => QueueAction::CreateMirrored {
                header_size: self.header_size,
                data_size: self.data_size,
            },
            Attach::Initialize(segment) => QueueAction::InitializeBuffer {
                ptr: segment.ptr,
                size: segment.size,
            },
            Attach::Ready(segment) => QueueAction::OpenBuffer {
                ptr: segment.ptr,
                size: segment.size,
            },
            Attach::Failed(_) => QueueAction::Return,
        }
    }

    /// Tells the outcome of `OpenMirrored` or `CreateMirrored`.
    pub fn segment(self, result: Result<ShmSegment, ShmError>) -> (opening: QueueOpening)
        requires
            self.stage@ is Open || self.stage@ is Create,
        ensures
            opening.name == self.name,
            opening.header_size == self.header_size,
            opening.data_size == self.data_size,
            opening.stage@ == match (self.stage@, result) {
                (Attachment::Open, Ok(segment)) => after_open(Some(segment)),
                (Attachment::Open, Err(_)) => after_open(None::<ShmSegment>),
                (_, Ok(segment)) => after_create(
                    Some(segment),
                    "Failed to create mirrored shm: "@,
                    Seq::empty(),
                ),
                (_, Err(e)) => after_create(
                    None::<ShmSegment>,
                    "Failed to create mirrored shm: "@,
                    e.message_spec(),
                ),
            },
    {
        let stage = match self.stage {
            Attach::Open => match result {
                Ok(segment) => Attach::opened(Some(segment)),
                Err(_) => Attach::opened(None),
            },
            _ => match result {
                Ok(segment) => Attach::created(Ok(segment), "Failed to create mirrored shm: "),
                Err(e) => Attach::created(Err(e.message()), "Failed to create mirrored shm: "),
            },
        };
        QueueOpening {
            name: self.name,
            header_size: self.header_size,
            data_size: self.data_size,
            stage,
        }
    }

    /// Tells the outcome of `InitializeBuffer`: nothing, or the text of the queue's
    /// error.
    pub fn initialized(self, result: Result<(), String>) -> (opening: QueueOpening)
        requires
            self.stage@ is Initialize,
        ensures
            opening.name == self.name,
            opening.header_size == self.header_size,
            opening.data_size == self.data_size,
            opening.stage@ == match result {
                Ok(_) => after_initialize(
                    self.stage@->Initialize_0,
                    true,
                    "Failed init buffer: "@,
                    Seq::empty(),
                ),
                Err(cause) => after_initialize(
                    self.stage@->Initialize_0,
                    false,
                    "Failed init buffer: "@,
                    cause@,
                ),
            },
    {
        let stage = match self.stage {
            Attach::Initialize(segment) => Attach::initialized(
                segment,
                result,
                "Failed init buffer: ",
            ),
            other => other,
        };
        QueueOpening {
            name: self.name,
            header_size: self.header_size,
            data_size: self.data_size,
            stage,
        }
    }

    /// Tells the outcome of `OpenBuffer`, the last action: nothing, or the text of the
    /// queue's error.
    pub fn buffer_opened(self, result: Result<(), String>) -> (queue: Result<ZooQueue, PyFailure>)
        requires
            self.stage@ is Ready,
        ensures
            match result {
                Ok(_) => queue == Ok::<ZooQueue, PyFailure>(
                    ZooQueue { shm: self.stage@->Ready_0 },
                ),
                Err(cause) => queue matches Err(failure) && failure@ == runtime_error(
                    "Failed to open buffer: "@,
                    cause@,
                ),
            },
    {
        match (self.stage, result) {
            (Attach::Ready(segment), Ok(_)) => Ok(ZooQueue { shm: segment }),
            (_, Err(cause)) => Err(PyFailure::runtime("Failed to open buffer: ", cause.as_str())),
            (_, Ok(_)) => Err(PyFailure::plain("Failed to open buffer: ")),
        }
    }

    /// The failure that the attachment ended with, if it did; otherwise the
    /// attachment itself.
    pub fn failure(self) -> (failure: Result<PyFailure, QueueOpening>)
        ensures
            failure == match self.stage {
                Attach::Failed(failure) => Ok(failure),
                _ => Err(self),
            },
    {
        match self.stage {
            Attach::Failed(failure) => Ok(failure),
            _ => Err(self),
        }
    }
}

/// How far the reception of a message, without copying it, has come.
pub enum RecvView {
    /// The next thing is to find the message, which takes the queue's mutex.
    Viewing,
    /// The next thing is to release the mutex.
    Releasing { ptr: usize, len: usize, next_pos: u64 },
    /// The message can be viewed.
    Ready(ZooView),
    /// There is no view.
    Failed(PyFailure),
}

/// A reception, with its failure as a sequence of characters.
pub enum Reception {
    Viewing,
    Releasing { ptr: usize, len: usize, next_pos: u64 },
    Ready(ZooView),
    Failed(Failure),
}

impl View for RecvView {
    type V = Reception;

    open spec fn view(&self) -> Reception {
        match *self {
            RecvView::Viewing => Reception::Viewing,
            RecvView::Releasing { ptr, len, next_pos } => Reception::Releasing {
                ptr,
                len,
                next_pos,
            },
            RecvView::Ready(view) => Reception::Ready(view),
            RecvView::Failed(failure) => Reception::Failed(failure@),
        }
    }
}

impl RecvView {
    /// Tells where the message lies, how long it is and where the next one starts; or
    /// the text of the queue's error.
    pub fn viewed(self, result: Result<(usize, usize, u64), String>) -> (recv: RecvView)
        requires
            self@ is Viewing,
        ensures
            recv@ == match result {
                Ok((ptr, len, next_pos)) => Reception::Releasing { ptr, len, next_pos },
                Err(cause) => Reception::Failed(
                    runtime_error("Queue get_view error: "@, cause@),
                ),
            },
    {
        match result {
            Ok((ptr, len, next_pos)) => RecvView::Releasing { ptr, len, next_pos },
            Err(cause) => RecvView::Failed(
                PyFailure::runtime("Queue get_view error: ", cause.as_str()),
            ),
        }
    }

    /// Tells whether the mutex was released: nothing, or the text of the queue's
    /// error. The view of the message is not given up yet.
    pub fn released(self, result: Result<(), String>) -> (recv: RecvView)
        requires
            self@ is Releasing,
        ensures
            recv@ == match (self@, result) {
                (Reception::Releasing { ptr, len, next_pos }, Ok(_)) => Reception::Ready(
                    ZooView { ptr, len, next_pos, committed: false },
                ),
                (_, Ok(_)) => self@,
                (_, Err(cause)) => Reception::Failed(
                    runtime_error("Failed to release lock: "@, cause@),
                ),
            },
    {
        match result {
            Ok(_) => match self {
                RecvView::Releasing { ptr, len, next_pos } => RecvView::Ready(
                    ZooView { ptr, len, next_pos, committed: false },
                ),
                other => other,
            },
            Err(cause) => RecvView::Failed(
                PyFailure::runtime("Failed to release lock: ", cause.as_str()),
            ),
        }
    }
}

/// A queue is opened first, by its name, with the header's size that was given and as
/// many megabytes of data as were asked for; only if it cannot be opened it is made, with
/// the same sizes. The ring buffer is made in a new segment only, and opened in every
/// segment; it has the whole segment.
pub proof fn queues_are_opened_or_made(
    name: String,
    size_mb: usize,
    header_size: usize,
    begun: QueueOpening,
    opening: QueueOpening,
    action: QueueAction,
)
    requires
        size_mb * 1024 * 1024 <= usize::MAX,
        call_ensures(ZooQueue::new, (name, size_mb, header_size), begun),
        call_ensures(QueueOpening::action, (&opening,), action),
    ensures
        call_requires(ZooQueue::new, (name, size_mb, header_size)),
        begun.name == name,
        begun.header_size == header_size,
        begun.data_size == size_mb * 1024 * 1024,
        begun.stage is Open,
        match opening.stage {
            Attach::Open => action matches QueueAction::OpenMirrored {
                header_size: header,
                data_size: data,
            } && header == opening.header_size && data == opening.data_size,
            Attach::Create => action matches QueueAction::CreateMirrored {
                header_size: header,
                data_size: data,
            } && header == opening.header_size && data == opening.data_size,
            Attach::Initialize(segment) => action matches QueueAction::InitializeBuffer {
                ptr,
                size,
            } && ptr == segment.ptr && size == segment.size,
            Attach::Ready(segment) => action matches QueueAction::OpenBuffer { ptr, size } && ptr
                == segment.ptr && size == segment.size,
            Attach::Failed(_) => action is Return,
        },
{
}

/// A segment that was opened is used; one that cannot be opened, for whatever reason, is
/// made; one that was made is initialized. If it cannot be made, the attachment fails and
/// tells why.
pub proof fn segments_are_opened_or_made(
    opening: QueueOpening,
    result: Result<ShmSegment, ShmError>,
    next: QueueOpening,
)
    requires
        opening.stage is Open || opening.stage is Create,
        call_ensures(QueueOpening::segment, (opening, result), next),
    ensures
        call_requires(QueueOpening::segment, (opening, result)),
        next.name == opening.name,
        next.header_size == opening.header_size,
        next.data_size == opening.data_size,
        opening.stage is Open ==> match result {
            Ok(segment) => next.stage == Attach::Ready(segment),
            Err(_) => next.stage is Create,
        },
        opening.stage is Create ==> match result {
            Ok(segment) => next.stage == Attach::Initialize(segment),
            Err(e) => next.stage matches Attach::Failed(failure) && failure.exception
                == Exception::RuntimeError && failure.message@
                == "Failed to create mirrored shm: "@ + e.message_spec(),
        },
{
}

/// A ring buffer in a new segment is opened once it is made; if that fails, so does the
/// attachment, which tells why.
pub proof fn new_buffers_are_initialized(
    opening: QueueOpening,
    segment: ShmSegment,
    result: Result<(), String>,
    next: QueueOpening,
)
    requires
        opening.stage == Attach::Initialize(segment),
        call_ensures(QueueOpening::initialized, (opening, result), next),
    ensures
        call_requires(QueueOpening::initialized, (opening, result)),
        next.name == opening.name,
        next.header_size == opening.header_size,
        next.data_size == opening.data_size,
        match result {
            Ok(_) => next.stage == Attach::Ready(segment),
            Err(cause) => next.stage matches Attach::Failed(failure) && failure.exception
                == Exception::RuntimeError && failure.message@ == "Failed init buffer: "@ + cause@,
        },
{
}

/// The queue is there once its buffer is open, in the segment that was opened or made;
/// otherwise the reason is told.
pub proof fn queues_lie_in_their_segments(
    opening: QueueOpening,
    segment: ShmSegment,
    result: Result<(), String>,
    queue: Result<ZooQueue, PyFailure>,
)
    requires
        opening.stage == Attach::Ready(segment),
        call_ensures(QueueOpening::buffer_opened, (opening, result), queue),
    ensures
        call_requires(QueueOpening::buffer_opened, (opening, result)),
        match result {
            Ok(_) => queue matches Ok(made) && made.shm == segment,
            Err(cause) => queue matches Err(failure) && failure.exception
                == Exception::RuntimeError && failure.message@ == "Failed to open buffer: "@
                + cause@,
        },
{
}

/// An attachment has a failure exactly if it failed, and it is the one that it ended
/// with.
pub proof fn failed_attachments_are_reported(
    opening: QueueOpening,
    failure: Result<PyFailure, QueueOpening>,
)
    requires
        call_ensures(QueueOpening::failure, (opening,), failure),
    ensures
        match opening.stage {
            Attach::Failed(reason) => failure matches Ok(reported) && reported == reason,
            _ => failure matches Err(same) && same == opening,
        },
{
}

/// What fails on a queue is reported with what was tried and the whole cause.
pub proof fn failures_tell_what_was_tried(
    cause: &str,
    put: PyFailure,
    get: PyFailure,
    commit: PyFailure,
    error: ShmError,
    unlink: PyFailure,
)
    requires
        call_ensures(ZooQueue::put_failure, (cause,), put),
        call_ensures(ZooQueue::get_failure, (cause,), get),
        call_ensures(ZooQueue::commit_failure, (cause,), commit),
        call_ensures(ZooQueue::unlink_failure, (error,), unlink),
    ensures
        put.exception == Exception::RuntimeError,
        put.message@ == "Queue put error: "@ + cause@,
        get.exception == Exception::RuntimeError,
        get.message@ == "Queue get error: "@ + cause@,
        commit.exception == Exception::RuntimeError,
        commit.message@ == "Queue commit_read error: "@ + cause@,
        unlink.exception == Exception::RuntimeError,
        unlink.message@ == "Unlink failed: "@ + error.message_spec(),
{
}

/// A message that was found can be viewed as soon as the mutex is released: where it
/// was found, as long as it was found to be, and not given up yet. The position to
/// commit is where the next message starts. If the message cannot be found, or the mutex
/// not be released, there is no view, and the reason is told.
pub proof fn views_show_what_was_found(
    start: RecvView,
    recv: RecvView,
    found: Result<(usize, usize, u64), String>,
    viewed: RecvView,
    result: Result<(), String>,
    end: RecvView,
)
    requires
        recv is Viewing,
        call_ensures(ZooQueue::recv_view, (), start),
        call_ensures(RecvView::viewed, (recv, found), viewed),
        found is Ok ==> call_ensures(RecvView::released, (viewed, result), end),
    ensures
        start is Viewing,
        call_requires(RecvView::viewed, (recv, found)),
        match found {
            Ok((ptr, len, next_pos)) => {
                &&& viewed == (RecvView::Releasing { ptr, len, next_pos })
                &&& call_requires(RecvView::released, (viewed, result))
                &&& match result {
                    Ok(_) => end matches RecvView::Ready(view) && {
                        &&& view.ptr == ptr
                        &&& view.len == len
                        &&& view.next_pos == next_pos
                        &&& !view.committed
                    },
                    Err(cause) => end matches RecvView::Failed(failure) && failure.exception
                        == Exception::RuntimeError && failure.message@
                        == "Failed to release lock: "@ + cause@,
                }
            },
            Err(cause) => viewed matches RecvView::Failed(failure) && failure.exception
                == Exception::RuntimeError && failure.message@ == "Queue get_view error: "@ + cause@,
        },
{
}

} // verus!
