//! What sending and receiving do to a queue in memory, byte by byte, which actions they
//! ask for, and what the making of a queue leaves in its region.

use crate::frame::{frame, frame_is_length_and_payload};
use crate::ring::{is_written, slot, written_bytes_lie_at_their_positions};
use crate::sync::MutexError;
use crate::zoosync_core::messages::{holds, new_queue_is_empty, occupied, sendable};
use crate::zoosync_core::messages::{
    get_takes_first, positions_tell_what_is_held, put_adds_last, History, QueueOp,
};
use crate::zoosync_core::queue::{
    GetBytes, InitAction, InitProgress, InitReply, InitStage, LockAttempt, LockStep, PutBytes,
    QueueAction, QueueError, QueueReply, QueueStage, RingBuffer, RingBufferHeader, RingInit,
    RingOpening,
};
use vstd::prelude::*;

verus! {

/// The number that four bytes of a buffer stand for, least significant first, which lie
/// at a stream position.
pub open spec fn field_at(buffer: Seq<u8>, pos: int) -> int {
    let capacity = buffer.len() as int;
    buffer[slot(pos, capacity)] + 0x100 * buffer[slot(pos + 1, capacity)] + 0x1_0000
        * buffer[slot(pos + 2, capacity)] + 0x100_0000 * buffer[slot(pos + 3, capacity)]
}

/// The positions are in order, no further apart than the buffer is long, and the buffer
/// is as long as the header says.
pub open spec fn is_sound(header: RingBufferHeader, buffer: Seq<u8>) -> bool {
    &&& header.read_pos <= header.write_pos
    &&& header.write_pos - header.read_pos <= header.capacity
    &&& header.capacity == buffer.len()
}

/// How many bytes of the buffer are not taken by messages.
pub open spec fn free_bytes(header: RingBufferHeader) -> int {
    header.capacity - (header.write_pos - header.read_pos)
}

/// What a put leaves if it found the queue as `before`. It waits exactly if fewer bytes
/// are free than the message and its length field take; then nothing changes. Otherwise
/// the length field lies at the old write position, the payload behind it, and the
/// write position behind that; nothing else changes.
pub open spec fn is_put(
    before: (RingBufferHeader, Seq<u8>),
    after: (RingBufferHeader, Seq<u8>),
    data: Seq<u8>,
    moved: bool,
) -> bool {
    let (header, buffer) = before;
    let capacity = buffer.len() as int;
    let pos = header.write_pos as int;
    &&& moved <==> free_bytes(header) >= data.len() + 4
    &&& !moved ==> after == before
    &&& moved ==> {
        &&& after.0.write_pos == pos + 4 + data.len()
        &&& after.0.read_pos == header.read_pos
        &&& after.0.capacity == header.capacity
        &&& after.0.init_done == header.init_done
        &&& after.1.len() == buffer.len()
        &&& field_at(after.1, pos) == data.len() as int % 0x1_0000_0000
        &&& forall|i: int|
            0 <= i < data.len() ==> after.1[slot(pos + 4 + i, capacity)] == #[trigger] data[i]
        &&& forall|p: int|
            pos + 4 + data.len() <= p < pos + capacity ==> after.1[#[trigger] slot(p, capacity)]
                == buffer[slot(p, capacity)]
    }
}

/// What a get leaves if it found the queue as `before`. It waits exactly if nothing is
/// pending; then the header does not change. Otherwise it yields as many bytes as the
/// length field at the read position says, those that follow the field, and the read
/// position is behind them.
pub open spec fn is_got(
    header: RingBufferHeader,
    after: RingBufferHeader,
    buffer: Seq<u8>,
    message: Option<Seq<u8>>,
) -> bool {
    let capacity = buffer.len() as int;
    let pos = header.read_pos as int;
    &&& message is Some <==> header.read_pos < header.write_pos
    &&& message is None ==> after == header
    &&& message matches Some(data) ==> {
        &&& data.len() == field_at(buffer, pos)
        &&& forall|i: int|
            0 <= i < data.len() ==> #[trigger] data[i] == buffer[slot(pos + 4 + i, capacity)]
        &&& after.read_pos == pos + 4 + data.len()
        &&& after.write_pos == header.write_pos
        &&& after.capacity == header.capacity
        &&& after.init_done == header.init_done
    }
}

/// The position behind a message that fits is a 64-bit number.
pub open spec fn position_fits(header: RingBufferHeader, len: nat) -> bool {
    free_bytes(header) >= len + 4 ==> header.write_pos + 4 + len <= u64::MAX
}

/// The next message, if there is one, lies within the buffer, length field and payload
/// wrapped around the end once at most, and the position behind it is a 64-bit number.
pub open spec fn next_message_fits(header: RingBufferHeader, buffer: Seq<u8>) -> bool {
    let capacity = buffer.len() as int;
    let pos = header.read_pos as int;
    let len = field_at(buffer, pos);
    header.read_pos < header.write_pos ==> {
        &&& header.capacity == buffer.len()
        &&& capacity > 0
        &&& slot(pos, capacity) + 4 <= 2 * capacity
        &&& slot(pos + 4, capacity) + len <= 2 * capacity
        &&& pos + 4 + len <= u64::MAX
    }
}

proof fn lemma_put(
    header: RingBufferHeader,
    buffer: Seq<u8>,
    after: RingBufferHeader,
    written: Seq<u8>,
    data: Seq<u8>,
    moved: bool,
)
    requires
        is_sound(header, buffer),
        position_fits(header, data.len()),
        moved == header.has_room(data.len()),
        moved ==> after == header.after_put(data.len()) && written == crate::ring::ring_write(
            buffer,
            header.write_pos as int,
            frame(data),
        ),
        !moved ==> after == header && written == buffer,
    ensures
        is_put((header, buffer), (after, written), data, moved),
{
    if moved {
        let pos = header.write_pos as int;
        let capacity = buffer.len() as int;
        let whole = frame(data);
        frame_is_length_and_payload(data);
        written_bytes_lie_at_their_positions(buffer, pos, whole);
        assert(is_written(buffer, written, pos, whole));
        assert(written[slot(pos + 0, capacity)] == whole[0]);
        assert(written[slot(pos + 1, capacity)] == whole[1]);
        assert(written[slot(pos + 2, capacity)] == whole[2]);
        assert(written[slot(pos + 3, capacity)] == whole[3]);
        assert forall|i: int| 0 <= i < data.len() implies written[slot(pos + 4 + i, capacity)]
            == #[trigger] data[i] by {
            assert(written[slot(pos + (4 + i), capacity)] == whole[4 + i]);
        }
    }
}

/// Whatever is pending, a put moves the message as soon as it fits into the bytes that
/// are free, length field included, and waits only as long as it does not; and what it
/// leaves in memory is the message behind the pending ones.
pub proof fn put_moves_whatever_fits()
    ensures
        forall|header: &mut RingBufferHeader, buffer: &mut [u8], data: &[u8]|
            is_sound(*header, buffer@) && position_fits(*header, data@.len())
                ==> #[trigger] call_requires(RingBufferHeader::try_put, (header, buffer, data)),
        forall|header: &mut RingBufferHeader, buffer: &mut [u8], data: &[u8], moved: bool|
            is_sound(*header, buffer@) && position_fits(*header, data@.len())
                && #[trigger] call_ensures(
                RingBufferHeader::try_put,
                (header, buffer, data),
                moved,
            ) ==> is_put((*header, buffer@), (*final(header), final(buffer)@), data@, moved),
{
    assert forall|header: &mut RingBufferHeader, buffer: &mut [u8], data: &[u8], moved: bool|
        is_sound(*header, buffer@) && position_fits(*header, data@.len())
            && #[trigger] call_ensures(
            RingBufferHeader::try_put,
            (header, buffer, data),
            moved,
        ) implies is_put((*header, buffer@), (*final(header), final(buffer)@), data@, moved) by {
        lemma_put(*header, buffer@, *final(header), final(buffer)@, data@, moved);
    }
}

/// A put that looks at the memory sends its message exactly if it fits; it then wakes
/// the other side, and otherwise waits.
pub proof fn sender_moves_whatever_fits()
    ensures
        forall|op: &mut PutBytes, header: &mut RingBufferHeader, buffer: &mut [u8]|
            op.stage is Checking && is_sound(*header, buffer@) && position_fits(
                *header,
                op.data@.len(),
            ) ==> #[trigger] call_requires(PutBytes::access, (op, header, buffer)),
        forall|op: &mut PutBytes, header: &mut RingBufferHeader, buffer: &mut [u8]|
            op.stage is Checking && is_sound(*header, buffer@) && position_fits(
                *header,
                op.data@.len(),
            ) && #[trigger] call_ensures(PutBytes::access, (op, header, buffer), ()) ==> {
                &&& final(op).ring == op.ring
                &&& final(op).data@ == op.data@
                &&& is_put(
                    (*header, buffer@),
                    (*final(header), final(buffer)@),
                    op.data@,
                    final(op).stage is Notifying,
                )
                &&& final(op).stage is Notifying || final(op).stage is Waiting
            },
{
    assert forall|op: &mut PutBytes, header: &mut RingBufferHeader, buffer: &mut [u8]|
        op.stage is Checking && is_sound(*header, buffer@) && position_fits(
            *header,
            op.data@.len(),
        ) && #[trigger] call_ensures(PutBytes::access, (op, header, buffer), ()) implies {
        &&& final(op).ring == op.ring
        &&& final(op).data@ == op.data@
        &&& is_put(
            (*header, buffer@),
            (*final(header), final(buffer)@),
            op.data@,
            final(op).stage is Notifying,
        )
        &&& final(op).stage is Notifying || final(op).stage is Waiting
    } by {
        lemma_put(
            *header,
            buffer@,
            *final(header),
            final(buffer)@,
            op.data@,
            header.has_room(op.data@.len()),
        );
    }
}

/// A get moves the next message whenever one is pending, and waits only as long as none
/// is.
pub proof fn get_moves_whatever_is_pending()
    ensures
        forall|header: &mut RingBufferHeader, buffer: &[u8]|
            next_message_fits(*header, buffer@) ==> #[trigger] call_requires(
                RingBufferHeader::try_get,
                (header, buffer),
            ),
        forall|header: &mut RingBufferHeader, buffer: &[u8], message: Option<Vec<u8>>|
            next_message_fits(*header, buffer@) && #[trigger] call_ensures(
                RingBufferHeader::try_get,
                (header, buffer),
                message,
            ) ==> is_got(
                *header,
                *final(header),
                buffer@,
                match message {
                    Some(data) => Some(data@),
                    None => None,
                },
            ),
{
}

/// A get that looks at the memory takes the next message exactly if one is pending; it
/// then wakes the other side, and otherwise waits.
pub proof fn receiver_moves_whatever_is_pending()
    ensures
        forall|op: &mut GetBytes, header: &mut RingBufferHeader, buffer: &[u8]|
            op.stage is Checking && next_message_fits(*header, buffer@)
                ==> #[trigger] call_requires(GetBytes::access, (op, header, buffer)),
        forall|op: &mut GetBytes, header: &mut RingBufferHeader, buffer: &[u8]|
            op.stage is Checking && next_message_fits(*header, buffer@)
                && #[trigger] call_ensures(GetBytes::access, (op, header, buffer), ()) ==> {
                &&& final(op).ring == op.ring
                &&& is_got(
                    *header,
                    *final(header),
                    buffer@,
                    if final(op).stage is Notifying {
                        Some(final(op).data@)
                    } else {
                        None
                    },
                )
                &&& final(op).stage is Notifying || final(op).stage is Waiting
            },
{
}

/// A put can be tried exactly if the positions are sound and leave room for the message
/// or do not; a get exactly if the next message lies within the buffer.
pub proof fn checks_tell_what_can_be_tried(
    header: RingBufferHeader,
    buffer: &[u8],
    data: &[u8],
    put: bool,
    get: bool,
)
    requires
        call_ensures(RingBufferHeader::check_put, (&header, buffer, data), put),
        call_ensures(RingBufferHeader::check_get, (&header, buffer), get),
    ensures
        put <==> is_sound(header, buffer@) && position_fits(header, data@.len()),
        get <==> next_message_fits(header, buffer@),
{
}

/// In terms of messages: a message is accepted exactly if those in the queue and it,
/// each with its length field, take no more than the capacity. Then it is the last one
/// in the queue.
pub proof fn fitting_messages_are_accepted(history: History, held: Seq<Seq<u8>>, data: Seq<u8>)
    requires
        holds(history.header, history.buffer, held),
        sendable(data),
        history.header.write_pos + 4 + data.len() <= u64::MAX,
    ensures
        ({
            let after = history.after(QueueOp::Put(data));
            if occupied(held) + data.len() + 4 <= history.header.capacity {
                &&& after.accepted == history.accepted.push(data)
                &&& holds(after.header, after.buffer, held.push(data))
            } else {
                after == history
            }
        }),
{
    positions_tell_what_is_held(history.header, history.buffer, held);
    if history.header.has_room(data.len()) {
        put_adds_last(history.header, history.buffer, held, data);
    }
}

/// In terms of messages: the oldest message is handed out, whenever there is one.
pub proof fn oldest_message_is_handed_out(history: History, held: Seq<Seq<u8>>)
    requires
        holds(history.header, history.buffer, held),
    ensures
        ({
            let after = history.after(QueueOp::Get);
            if held.len() > 0 {
                &&& after.received == history.received.push(held[0])
                &&& holds(after.header, after.buffer, held.drop_first())
            } else {
                after == history
            }
        }),
{
    positions_tell_what_is_held(history.header, history.buffer, held);
    if held.len() > 0 {
        get_takes_first(history.header, history.buffer, held);
    }
}

/// What a queue holds is what lies in its buffer: the oldest message at the read
/// position, its length in front of it, and the others behind it.
pub proof fn held_messages_lie_in_the_buffer(
    header: RingBufferHeader,
    buffer: Seq<u8>,
    held: Seq<Seq<u8>>,
    i: int,
)
    requires
        holds(header, buffer, held),
        held.len() > 0,
        0 <= i < held[0].len(),
    ensures
        field_at(buffer, header.read_pos as int) == held[0].len(),
        buffer[slot(header.read_pos + 4 + i, buffer.len() as int)] == held[0][i],
        header.after_get(buffer).read_pos == header.read_pos + 4 + held[0].len(),
        holds(header.after_get(buffer), buffer, held.drop_first()),
{
    get_takes_first(header, buffer, held);
    positions_tell_what_is_held(header, buffer, held);
    assert(header.next_payload(buffer)[i] == held[0][i]);
    assert(header.next_payload(buffer).len() == held[0].len());
}

/// What an outcome leads to. An error ends the operation with that error, except that
/// the finding of a dead owner is followed by another attempt to lock. Otherwise the
/// lock is followed by a look, a look that moved the message by the waking of the other
/// side and that by the unlocking, and a look in vain by a wait, which is followed by
/// another look.
pub open spec fn leads_to(stage: QueueStage, reply: QueueReply, next: QueueStage) -> bool {
    match reply {
        QueueReply::Mutex(Err(e)) => if stage is Locking && e is Recovered {
            next is Locking
        } else {
            next matches QueueStage::Failed(QueueError::Mutex(reason)) && reason == e
        },
        QueueReply::Cond(Err(e)) => next matches QueueStage::Failed(QueueError::Cond(reason))
            && reason == e,
        QueueReply::Mutex(Ok(_)) => {
            &&& stage is Locking ==> next is Checking
            &&& stage is Unlocking ==> next is Done
        },
        QueueReply::Cond(Ok(_)) => {
            &&& stage is Waiting ==> next is Checking
            &&& stage is Notifying ==> next is Unlocking
        },
        QueueReply::Access { moved } => if moved {
            next is Notifying
        } else {
            next is Waiting
        },
    }
}

/// Whether the outcome is one of what is done at this stage.
pub open spec fn is_due(stage: QueueStage, reply: QueueReply) -> bool {
    ||| reply is Mutex && (stage is Locking || stage is Unlocking)
    ||| reply is Access && stage is Checking
    ||| reply is Cond && (stage is Waiting || stage is Notifying)
}

/// Outcomes lead on, or end the operation with the error that they tell.
pub proof fn outcomes_lead_on(stage: QueueStage, reply: QueueReply, next: QueueStage)
    ensures
        is_due(stage, reply) <==> stage.expects(reply),
        is_due(stage, reply) ==> call_requires(QueueStage::advance, (stage, reply)),
        is_due(stage, reply) && call_ensures(QueueStage::advance, (stage, reply), next)
            ==> leads_to(stage, reply, next),
        is_due(stage, reply) ==> leads_to(stage, reply, stage.next(reply)),
{
}

/// A put or a get that is told an outcome moves on accordingly, and keeps its queue and
/// its data.
pub proof fn operations_are_led_by_outcomes()
    ensures
        forall|op: &mut PutBytes, reply: QueueReply|
            is_due(op.stage, reply) && !(reply is Access) ==> #[trigger] call_requires(
                PutBytes::resume,
                (op, reply),
            ),
        forall|op: &mut PutBytes, reply: QueueReply|
            is_due(op.stage, reply) && !(reply is Access) && #[trigger] call_ensures(
                PutBytes::resume,
                (op, reply),
                (),
            ) ==> {
                &&& leads_to(op.stage, reply, final(op).stage)
                &&& final(op).ring == op.ring
                &&& final(op).data@ == op.data@
            },
        forall|op: &mut GetBytes, reply: QueueReply|
            is_due(op.stage, reply) && !(reply is Access) ==> #[trigger] call_requires(
                GetBytes::resume,
                (op, reply),
            ),
        forall|op: &mut GetBytes, reply: QueueReply|
            is_due(op.stage, reply) && !(reply is Access) && #[trigger] call_ensures(
                GetBytes::resume,
                (op, reply),
                (),
            ) ==> {
                &&& leads_to(op.stage, reply, final(op).stage)
                &&& final(op).ring == op.ring
                &&& final(op).data@ == op.data@
            },
{
}

/// Operations begin with the lock, for the queue and the message that they are given.
pub proof fn operations_begin_with_the_lock(
    ring: RingBuffer,
    data: &[u8],
    put: PutBytes,
    get: GetBytes,
)
    requires
        call_ensures(RingBuffer::put_bytes, (&ring, data), put),
        call_ensures(RingBuffer::get_bytes, (&ring,), get),
    ensures
        put.ring == ring,
        put.data@ == data@,
        put.stage is Locking,
        get.ring == ring,
        get.data@ == Seq::<u8>::empty(),
        get.stage is Locking,
{
}

/// What an operation asks for. It locks and unlocks one mutex, looks at the words and
/// the buffer of its queue, and waits a tenth of a second at a time. It ends exactly
/// when it asks for nothing more.
pub open spec fn asks_for(
    stage: QueueStage,
    ring: RingBuffer,
    wait: usize,
    wake: usize,
    action: QueueAction,
) -> bool {
    match stage {
        QueueStage::Locking => action matches QueueAction::Lock { mutex } && mutex == ring.mutex,
        QueueStage::Checking => action matches QueueAction::Access { header, buffer } && header
            == ring.header && buffer == ring.buffer,
        QueueStage::Waiting => action matches QueueAction::Wait { cond, mutex, millis } && cond
            == wait && mutex == ring.mutex && millis == 100,
        QueueStage::Notifying => action matches QueueAction::Notify { cond } && cond == wake,
        QueueStage::Unlocking => action matches QueueAction::Unlock { mutex } && mutex
            == ring.mutex,
        QueueStage::Done | QueueStage::Failed(_) => action is Return,
    }
}

/// Senders wait until the queue is not full and tell that it is not empty; receivers
/// wait until it is not empty and tell that it is not full. So each side wakes those of
/// the other side who wait.
pub proof fn each_side_wakes_the_other(
    put: PutBytes,
    get: GetBytes,
    put_action: QueueAction,
    get_action: QueueAction,
)
    requires
        call_ensures(PutBytes::action, (&put,), put_action),
        call_ensures(GetBytes::action, (&get,), get_action),
    ensures
        asks_for(put.stage, put.ring, put.ring.not_full, put.ring.not_empty, put_action),
        asks_for(get.stage, get.ring, get.ring.not_empty, get.ring.not_full, get_action),
        put.ring == get.ring && put.stage is Waiting && get.stage is Notifying ==> (put_action
            matches QueueAction::Wait { cond: waits, .. } && get_action matches
            QueueAction::Notify { cond: wakes } && waits == wakes),
        put.ring == get.ring && get.stage is Waiting && put.stage is Notifying ==> (get_action
            matches QueueAction::Wait { cond: waits, .. } && put_action matches
            QueueAction::Notify { cond: wakes } && waits == wakes),
{
}

/// An operation has a result exactly when it has ended: success, with the message that
/// was received, or the error that it ended with.
pub proof fn results_are_those_of_the_end(
    put: PutBytes,
    sent: Option<Result<(), QueueError>>,
    get: GetBytes,
    received: Result<Result<Vec<u8>, QueueError>, GetBytes>,
)
    requires
        call_ensures(PutBytes::result, (&put,), sent),
        call_ensures(GetBytes::result, (get,), received),
    ensures
        sent is Some <==> put.stage is Done || put.stage is Failed,
        put.stage is Done ==> sent->0 is Ok,
        put.stage matches QueueStage::Failed(e) ==> (sent->0 matches Err(reported) && reported
            == e),
        received is Ok <==> get.stage is Done || get.stage is Failed,
        get.stage is Done ==> (received->Ok_0 matches Ok(data) && data@ == get.data@),
        get.stage matches QueueStage::Failed(e) ==> (received->Ok_0 matches Err(reported)
            && reported == e),
        received matches Err(same) ==> same == get,
{
}

/// Any number of waits may come before a message is moved: a course in which nothing
/// fails, with `waits` looks in vain.
pub open spec fn waits_then_moves(waits: nat) -> Seq<QueueReply>
    decreases waits,
{
    if waits == 0 {
        seq![QueueReply::Mutex(Ok(()))]
    } else {
        waits_then_moves((waits - 1) as nat).push(QueueReply::Access { moved: false }).push(
            QueueReply::Cond(Ok(())),
        )
    }
}

/// The stage after a sequence of outcomes.
pub open spec fn stage_after(replies: Seq<QueueReply>) -> QueueStage
    decreases replies.len(),
{
    if replies.len() == 0 {
        QueueStage::Locking
    } else {
        stage_after(replies.drop_last()).next(replies.last())
    }
}

/// However often an operation looks in vain, it looks again after the next wake-up; and
/// once it moves its message, and nothing fails, it wakes the other side, unlocks and
/// succeeds.
pub proof fn operations_succeed_unless_something_fails(waits: nat)
    ensures
        stage_after(waits_then_moves(waits)) is Checking,
        stage_after(
            waits_then_moves(waits).push(QueueReply::Access { moved: true }).push(
                QueueReply::Cond(Ok(())),
            ).push(QueueReply::Mutex(Ok(()))),
        ) is Done,
    decreases waits,
{
    let start = waits_then_moves(waits);
    if waits == 0 {
        assert(start.drop_last() =~= Seq::<QueueReply>::empty());
        reveal_with_fuel(stage_after, 2);
    } else {
        let fewer = waits_then_moves((waits - 1) as nat);
        operations_succeed_unless_something_fails((waits - 1) as nat);
        let looked = fewer.push(QueueReply::Access { moved: false });
        assert(looked.drop_last() =~= fewer);
        assert(start.drop_last() =~= looked);
        assert(stage_after(looked) is Waiting);
    }
    let moved = start.push(QueueReply::Access { moved: true });
    let woken = moved.push(QueueReply::Cond(Ok(())));
    let released = woken.push(QueueReply::Mutex(Ok(())));
    assert(moved.drop_last() =~= start);
    assert(woken.drop_last() =~= moved);
    assert(released.drop_last() =~= woken);
    assert(stage_after(moved) is Notifying);
    assert(stage_after(woken) is Unlocking);
}

/// A lock that was acquired is held; if its owner was found dead it is tried again; any
/// other error is the operation's.
pub proof fn locks_are_judged(outcome: Result<(), MutexError>, step: LockStep)
    requires
        call_ensures(RingBuffer::lock, (outcome,), step),
    ensures
        outcome is Ok <==> step is Held,
        step is Retry <==> outcome == Err::<(), MutexError>(MutexError::Recovered),
        outcome matches Err(e) ==> e is Recovered || (step matches LockStep::Failed(
            QueueError::Mutex(reason),
        ) && reason == e),
{
}

/// A recovered mutex is given back, and only that; then the recovery is told, unless the
/// giving back failed. Every other answer of the mutex is the reply itself.
pub proof fn recovered_mutexes_are_given_back(
    outcome: Result<(), MutexError>,
    attempt: LockAttempt,
    released: Result<(), MutexError>,
    reply: QueueReply,
)
    requires
        call_ensures(LockAttempt::judge, (outcome,), attempt),
        call_ensures(LockAttempt::given_back, (released,), reply),
    ensures
        attempt is GiveBack <==> (outcome matches Err(e) && e is Recovered),
        attempt matches LockAttempt::Replied(told) ==> (told matches QueueReply::Mutex(same)
            && same == outcome),
        released is Ok ==> (reply matches QueueReply::Mutex(Err(e)) && e is Recovered),
        released matches Err(e) ==> (reply matches QueueReply::Mutex(Err(told)) && told == e),
{
}

/// A region is too small for a queue exactly if nothing is left of it behind the header,
/// which takes 416 bytes. Otherwise the making begins with the mutex.
pub proof fn regions_need_room_for_data(
    ptr: usize,
    size: usize,
    init: Result<RingInit, QueueError>,
)
    requires
        ptr + size <= usize::MAX,
    ensures
        call_requires(RingBuffer::initialize_at, (ptr, size)),
        call_ensures(RingBuffer::initialize_at, (ptr, size), init) ==> {
            &&& init is Ok <==> size > 416
            &&& init matches Err(e) ==> e is BufferTooSmall
            &&& init matches Ok(making) ==> {
                &&& making.ptr == ptr
                &&& making.size == size
                &&& making.stage is Mutex
                &&& call_requires(RingInit::action, (&making,))
            }
        },
{
}

/// The parts of a queue in a region: the mutex at its start, then the two condition
/// variables, 128 bytes for each of the three, then four words of 8 bytes, then the
/// buffer.
pub open spec fn is_laid_out(ring: RingBuffer, ptr: int) -> bool {
    &&& ring.mutex == ptr
    &&& ring.header == ptr
    &&& ring.not_empty == ptr + 128
    &&& ring.not_full == ptr + 256
    &&& ring.buffer == ptr + 384 + 4 * 8
}

/// Making a queue makes its mutex, the condition variable that tells that it is not
/// empty, and the one that tells that it is not full, where those who use the queue look
/// for them; and last it stores the words, between those and the buffer. The stored
/// capacity is that of a buffer that ends where the region ends, the stored positions
/// are those of an empty queue, and the last word tells that the queue is ready.
pub proof fn making_fills_the_region(init: RingInit, action: InitAction, buffer: Seq<u8>)
    requires
        init.size > 416,
        init.ptr + init.size <= usize::MAX,
        call_ensures(RingInit::action, (&init,), action),
        buffer.len() == init.size - 416,
    ensures
        call_requires(RingInit::action, (&init,)),
        ({
            let ring = RingBuffer::at(init.ptr as int);
            &&& is_laid_out(ring, init.ptr as int)
            &&& match init.stage {
                InitStage::Mutex => action matches InitAction::InitMutex { address } && address
                    == ring.mutex,
                InitStage::NotEmpty => action matches InitAction::InitCond { address } && address
                    == ring.not_empty,
                InitStage::NotFull => action matches InitAction::InitCond { address } && address
                    == ring.not_full,
                InitStage::Words => action matches InitAction::StoreHeader { address, header } && {
                    &&& address + 32 == ring.buffer
                    &&& ring.buffer + header.capacity == init.ptr + init.size
                    &&& header.capacity == init.size - 416
                    &&& header.read_pos == 0
                    &&& header.write_pos == 0
                    &&& header.init_done == 1
                    &&& holds(header, buffer, Seq::empty())
                },
            }
        }),
{
    if init.stage is Words {
        new_queue_is_empty(buffer, 1);
    }
}

/// The parts are made one after the other: mutex, the two condition variables, words.
/// The first that cannot be made is the reason why there is no queue. When the words are
/// stored, the queue is ready, with its parts where they were made.
pub proof fn parts_are_made_in_order(init: RingInit, reply: InitReply, progress: InitProgress)
    requires
        init.size > 416,
        init.ptr + init.size <= usize::MAX,
        match init.stage {
            InitStage::Mutex => reply is Mutex,
            InitStage::NotEmpty | InitStage::NotFull => reply is Cond,
            InitStage::Words => reply is Stored,
        },
        call_ensures(RingInit::advance, (init, reply), progress),
    ensures
        call_requires(RingInit::advance, (init, reply)),
        match reply {
            InitReply::Mutex(Err(e)) => progress matches InitProgress::Failed(
                QueueError::Mutex(reason),
            ) && reason == e,
            InitReply::Cond(Err(e)) => progress matches InitProgress::Failed(
                QueueError::Cond(reason),
            ) && reason == e,
            InitReply::Stored => progress matches InitProgress::Ready(ring) && is_laid_out(
                ring,
                init.ptr as int,
            ),
            _ => progress matches InitProgress::Pending(next) && {
                &&& next.ptr == init.ptr
                &&& next.size == init.size
                &&& init.stage is Mutex ==> next.stage is NotEmpty
                &&& init.stage is NotEmpty ==> next.stage is NotFull
                &&& init.stage is NotFull ==> next.stage is Words
            },
        },
{
}

/// Whoever opens a queue finds its parts where its maker made them. The queue is used as
/// soon as its last word, which lies right before the buffer, is not zero, and not
/// before.
pub proof fn opener_finds_the_parts(
    ptr: usize,
    size: usize,
    opening: RingOpening,
    address: usize,
    word: u64,
    ring: Option<RingBuffer>,
)
    requires
        size >= 416,
        ptr + size <= usize::MAX,
        call_ensures(RingBuffer::from_ptr, (ptr, size), opening),
        call_ensures(RingOpening::init_done_address, (&opening,), address),
        call_ensures(RingOpening::poll, (&opening, word), ring),
    ensures
        call_requires(RingBuffer::from_ptr, (ptr, size)),
        call_requires(RingOpening::init_done_address, (&opening,)),
        is_laid_out(opening.ring, ptr as int),
        address + 8 == opening.ring.buffer,
        ring is Some <==> word != 0,
        ring matches Some(found) ==> found == opening.ring,
{
}

/// What is said of an error: what kind it is, and then the whole cause.
pub proof fn errors_are_put_into_words(error: QueueError, cause: &str, text: String)
    requires
        call_ensures(QueueError::message, (&error, cause), text),
    ensures
        error is Mutex ==> text@ == "Mutex error: "@ + cause@,
        error is Cond ==> text@ == "Cond error: "@ + cause@,
        error is BufferTooSmall ==> text@ == "Buffer too small"@,
{
}

} // verus!
