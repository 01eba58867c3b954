//! What holds of every course that an operation on the queue, or the making of one,
//! can take.

use crate::sync::{CondError, MutexError, Robust};
use crate::zoosync_core::messages::{holds, new_queue_is_empty};
use crate::zoosync_core::queue::{
    InitProgress, InitReply, InitStage, LockAttempt, QueueError, QueueReply, QueueStage,
    RingBuffer, RingBufferHeader, RingInit, HEADER_SIZE, SYNC_AREA, WORDS_OFFSET,
};
use vstd::prelude::*;

verus! {

/// An operation on the queue under way, with what can be told from the outcomes so
/// far: whether it holds the mutex, and how many messages it has moved. A mutex that was
/// recovered is given back before the outcome is told; one for which that was refused
/// does not count as held.
pub struct Course {
    pub stage: QueueStage,
    pub held: bool,
    pub moves: nat,
}

impl Course {
    /// An operation that has not begun.
    pub open spec fn start() -> Course {
        Course { stage: QueueStage::Locking, held: false, moves: 0 }
    }

    /// After one more outcome.
    pub open spec fn after(self, reply: QueueReply) -> Course {
        Course {
            stage: self.stage.next(reply),
            held: match (self.stage, reply) {
                (QueueStage::Locking, QueueReply::Mutex(Ok(_))) => true,
                (QueueStage::Unlocking, QueueReply::Mutex(Ok(_))) => false,
                _ => self.held,
            },
            moves: match reply {
                QueueReply::Access { moved: true } => self.moves + 1,
                _ => self.moves,
            },
        }
    }

    /// After a sequence of outcomes.
    pub open spec fn run(self, replies: Seq<QueueReply>) -> Course
        decreases replies.len(),
    {
        if replies.len() == 0 {
            self
        } else {
            self.run(replies.drop_last()).after(replies.last())
        }
    }

    /// Each outcome is one of the action that was due.
    pub open spec fn fits(self, replies: Seq<QueueReply>) -> bool
        decreases replies.len(),
    {
        replies.len() > 0 ==> {
            &&& self.fits(replies.drop_last())
            &&& self.run(replies.drop_last()).stage.expects(replies.last())
        }
    }
}

/// Whatever the outcomes: the memory is only looked at, waited for and announced
/// while the mutex is held; an operation that succeeds has released the mutex and
/// has moved exactly one message; one that fails on a condition variable ends with
/// the mutex still held.
pub proof fn mutex_discipline(replies: Seq<QueueReply>)
    requires
        Course::start().fits(replies),
    ensures
        ({
            let end = Course::start().run(replies);
            match end.stage {
                QueueStage::Locking => !end.held && end.moves == 0,
                QueueStage::Checking | QueueStage::Waiting => end.held && end.moves == 0,
                QueueStage::Notifying | QueueStage::Unlocking => end.held && end.moves == 1,
                QueueStage::Done => !end.held && end.moves == 1,
                QueueStage::Failed(e) => {
                    &&& e is Cond ==> end.held
                    &&& e is Mutex ==> end.held == (end.moves == 1)
                    &&& e !is BufferTooSmall
                    &&& end.moves <= 1
                },
            }
        }),
    decreases replies.len(),
{
    if replies.len() > 0 {
        mutex_discipline(replies.drop_last());
    }
}

/// Something that happens to an operation: an outcome, or a look at the memory, which
/// others may have changed since the last one.
pub enum Event {
    Outcome(QueueReply),
    Look(RingBufferHeader),
}

/// The replies that a `put` of `len` payload bytes gets: a look moves the message if
/// there is room.
pub open spec fn put_replies(events: Seq<Event>, len: nat) -> Seq<QueueReply> {
    events.map_values(
        |event: Event|
            match event {
                Event::Outcome(reply) => reply,
                Event::Look(header) => QueueReply::Access { moved: header.has_room(len) },
            },
    )
}

/// The replies that a `get` gets: a look moves the next message if there is one.
pub open spec fn get_replies(events: Seq<Event>) -> Seq<QueueReply> {
    events.map_values(
        |event: Event|
            match event {
                Event::Outcome(reply) => reply,
                Event::Look(header) => QueueReply::Access {
                    moved: header.write_pos > header.read_pos,
                },
            },
    )
}

/// No outcome pretends to be a look.
pub open spec fn looks_are_looks(events: Seq<Event>) -> bool {
    forall|i: int| 0 <= i < events.len() ==> (#[trigger] events[i] matches Event::Outcome(reply)
        ==> !(reply is Access))
}

/// Where in a course of replies the only message was moved.
proof fn moved_once_at(replies: Seq<QueueReply>) -> (at: int)
    requires
        Course::start().fits(replies),
    ensures
        Course::start().run(replies).moves <= 1,
        Course::start().run(replies).moves == 1 ==> {
            &&& 0 <= at < replies.len()
            &&& replies[at] == QueueReply::Access { moved: true }
        },
        forall|i: int|
            0 <= i < replies.len() && (Course::start().run(replies).moves == 1 ==> i != at)
                ==> #[trigger] replies[i] != (QueueReply::Access { moved: true }),
    decreases replies.len(),
{
    mutex_discipline(replies);
    if replies.len() == 0 {
        0
    } else {
        let before = replies.drop_last();
        let earlier = moved_once_at(before);
        mutex_discipline(before);
        let last = replies.len() - 1;
        let at = if replies[last] == (QueueReply::Access { moved: true }) {
            last
        } else {
            earlier
        };
        assert forall|i: int|
            0 <= i < replies.len() && (Course::start().run(replies).moves == 1 ==> i
                != at) implies #[trigger] replies[i] != (QueueReply::Access { moved: true }) by {
            if i < last {
                assert(before[i] == replies[i]);
            }
        }
        at
    }
}

/// A `put` that succeeds has written its message once: at the only look that found
/// room for it.
pub proof fn sent_exactly_once(events: Seq<Event>, len: nat) -> (at: int)
    requires
        looks_are_looks(events),
        Course::start().fits(put_replies(events, len)),
        Course::start().run(put_replies(events, len)).stage == QueueStage::Done,
    ensures
        0 <= at < events.len(),
        events[at] matches Event::Look(header) && header.has_room(len),
        forall|i: int|
            0 <= i < events.len() && i != at ==> (#[trigger] events[i] matches Event::Look(header)
                ==> !header.has_room(len)),
{
    let replies = put_replies(events, len);
    mutex_discipline(replies);
    let at = moved_once_at(replies);
    assert forall|i: int| 0 <= i < events.len() && i != at implies (#[trigger] events[i] matches
        Event::Look(header) ==> !header.has_room(len)) by {
        assert(replies[i] != (QueueReply::Access { moved: true }));
    }
    at
}

/// A `get` that succeeds has taken one message: at the only look that found one.
pub proof fn received_exactly_once(events: Seq<Event>) -> (at: int)
    requires
        looks_are_looks(events),
        Course::start().fits(get_replies(events)),
        Course::start().run(get_replies(events)).stage == QueueStage::Done,
    ensures
        0 <= at < events.len(),
        events[at] matches Event::Look(header) && header.write_pos > header.read_pos,
        forall|i: int|
            0 <= i < events.len() && i != at ==> (#[trigger] events[i] matches Event::Look(header)
                ==> header.write_pos <= header.read_pos),
{
    let replies = get_replies(events);
    mutex_discipline(replies);
    let at = moved_once_at(replies);
    assert forall|i: int| 0 <= i < events.len() && i != at implies (#[trigger] events[i] matches
        Event::Look(header) ==> header.write_pos <= header.read_pos) by {
        assert(replies[i] != (QueueReply::Access { moved: true }));
    }
    at
}

/// However often the previous owner is found dead, the operation tries again, and
/// the first other outcome decides.
pub proof fn recovery_is_retried(times: nat, outcome: Result<(), MutexError>)
    requires
        outcome != Err::<(), MutexError>(MutexError::Recovered),
    ensures
        ({
            let recovered = QueueReply::Mutex(Err(MutexError::Recovered));
            let replies = Seq::new(times, |i: int| recovered).push(QueueReply::Mutex(outcome));
            &&& Course::start().fits(replies)
            &&& Course::start().run(replies).stage == match outcome {
                Ok(_) => QueueStage::Checking,
                Err(e) => QueueStage::Failed(QueueError::Mutex(e)),
            }
        }),
{
    let recovered = QueueReply::Mutex(Err(MutexError::Recovered));
    let retries = Seq::new(times, |i: int| recovered);
    lemma_retries(times);
    let replies = retries.push(QueueReply::Mutex(outcome));
    assert(replies.drop_last() =~= retries);
}

proof fn lemma_retries(times: nat)
    ensures
        ({
            let recovered = QueueReply::Mutex(Err(MutexError::Recovered));
            let retries = Seq::new(times, |i: int| recovered);
            &&& Course::start().fits(retries)
            &&& Course::start().run(retries) == Course::start()
        }),
    decreases times,
{
    let recovered = QueueReply::Mutex(Err(MutexError::Recovered));
    let retries = Seq::new(times, |i: int| recovered);
    if times > 0 {
        let fewer = (times - 1) as nat;
        lemma_retries(fewer);
        assert(retries.drop_last() =~= Seq::new(fewer, |i: int| recovered));
    }
}

/// The reply that `who` gets to `Lock` on this mutex, and the mutex afterwards. While
/// somebody alive owns the mutex there is none.
pub open spec fn lock_performed(mutex: Robust, who: nat) -> Option<(QueueReply, Robust)> {
    match mutex.attempt(who, true) {
        None => None,
        Some((outcome, mine)) => match LockAttempt::of(outcome) {
            LockAttempt::Replied(reply) => Some((reply, mine)),
            LockAttempt::GiveBack => {
                let (released, after) = mine.release(who);
                Some((LockAttempt::given_back_spec(released), after))
            },
        },
    }
}

/// The reply to `Lock` tells who owns the mutex: the operation moves on, and holds the
/// mutex, exactly if it owns it; otherwise it tries again, and nobody owns it.
pub proof fn lock_reply_tells_the_owner(mutex: Robust, who: nat)
    requires
        lock_performed(mutex, who) is Some,
    ensures
        ({
            let (reply, after) = lock_performed(mutex, who)->0;
            let course = Course::start().after(reply);
            &&& Course::start().stage.expects(reply)
            &&& course.held <==> after == Robust::owned_by(who)
            &&& course.held ==> course.stage == QueueStage::Checking
            &&& !course.held ==> course.stage == QueueStage::Locking && after == Robust::free()
        }),
{
}

/// A queue whose mutex was owned by somebody who died keeps nobody waiting: the first
/// attempt finds that out and gives the mutex back, and the second one acquires it,
/// unless somebody else was faster. Without the giving back the second one would have
/// no outcome.
pub proof fn orphaned_queue_is_locked_again(mutex: Robust, who: nat)
    requires
        mutex.is_orphaned(),
    ensures
        ({
            let (outcome, mine) = mutex.attempt(who, true)->0;
            let (released, free) = mine.release(who);
            &&& mutex.attempt(who, true) is Some
            &&& outcome == Err::<(), MutexError>(MutexError::Recovered)
            &&& mine == Robust::owned_by(who)
            &&& mine.attempt(who, true) is None
            &&& released is Ok
            &&& free.attempt(who, true) == Some((Ok::<(), MutexError>(()), Robust::owned_by(who)))
        }),
        ({
            let (first, given_back) = lock_performed(mutex, who)->0;
            let (second, held) = lock_performed(given_back, who)->0;
            let course = Course::start().after(first).after(second);
            &&& lock_performed(mutex, who) is Some
            &&& lock_performed(given_back, who) is Some
            &&& held == Robust::owned_by(who)
            &&& course.held
            &&& course.stage == QueueStage::Checking
        }),
{
}

/// The parts of a queue follow each other in its region, without overlap: the
/// mutex, the two condition variables, the words, and a buffer that has the
/// recorded capacity and ends where the region ends.
pub proof fn parts_fill_the_region(init: RingInit)
    requires
        init.wf(),
        init.ptr + init.size <= usize::MAX,
    ensures
        ({
            let ring = RingBuffer::at(init.ptr as int);
            &&& ring.mutex == init.ptr
            &&& ring.mutex + SYNC_AREA == ring.not_empty
            &&& ring.not_empty + SYNC_AREA == ring.not_full
            &&& ring.not_full + SYNC_AREA == init.ptr + WORDS_OFFSET
            &&& init.ptr + WORDS_OFFSET + 4 * 8 == ring.buffer
            &&& ring.buffer + init.words().capacity == init.ptr + init.size
        }),
{
}

/// The making of a queue, fed with four outcomes in a row. It ends early on the
/// first failure.
pub open spec fn make(
    init: RingInit,
    mutex: Result<(), MutexError>,
    not_empty: Result<(), CondError>,
    not_full: Result<(), CondError>,
) -> InitProgress {
    match init.next(InitReply::Mutex(mutex)) {
        InitProgress::Pending(second) => match second.next(InitReply::Cond(not_empty)) {
            InitProgress::Pending(third) => match third.next(InitReply::Cond(not_full)) {
                InitProgress::Pending(fourth) => fourth.next(InitReply::Stored),
                other => other,
            },
            other => other,
        },
        other => other,
    }
}

/// A queue is made exactly if its mutex and both condition variables were; the
/// first of them that fails is the reason why it is not. The maker and those who
/// open the region see the parts at the same addresses.
pub proof fn made_exactly_if_all_parts_are(
    init: RingInit,
    mutex: Result<(), MutexError>,
    not_empty: Result<(), CondError>,
    not_full: Result<(), CondError>,
)
    requires
        init.stage == InitStage::Mutex,
    ensures
        make(init, mutex, not_empty, not_full) == match (mutex, not_empty, not_full) {
            (Err(e), _, _) => InitProgress::Failed(QueueError::Mutex(e)),
            (_, Err(e), _) => InitProgress::Failed(QueueError::Cond(e)),
            (_, _, Err(e)) => InitProgress::Failed(QueueError::Cond(e)),
            _ => InitProgress::Ready(RingBuffer::at(init.ptr as int)),
        },
{
}

/// A newly made queue holds no message, and its last word, the one that is stored
/// last, tells that it is ready.
pub proof fn made_queue_is_empty(init: RingInit, buffer: Seq<u8>)
    requires
        init.wf(),
        buffer.len() == init.size - HEADER_SIZE,
    ensures
        holds(init.words(), buffer, Seq::empty()),
        init.words().init_done != 0,
{
    new_queue_is_empty(buffer, 1);
}

} // verus!
