//! Several callers of one queue. Their operations interleave in any way that one mutex
//! permits, and callers die at any moment, with the mutex in their hands or without;
//! what comes out is what the same looks at the memory give one after another.

use crate::frame::frame;
use crate::ring::ring_write;
use crate::sync::{MutexError, Robust};
use crate::zoosync_core::messages::{
    all_sendable, first_in_first_out, half_written, half_written_message_is_not_there, holds,
    occupied, positions_fit, History, QueueOp,
};
use crate::zoosync_core::protocol::lock_performed;
use crate::zoosync_core::queue::{QueueReply, QueueStage, RingBufferHeader};
use vstd::prelude::*;

verus! {

/// An operation of a caller. It reads the memory and, as a step of its own, writes what
/// it made of it; others may act in between.
pub struct Caller {
    /// The operation's number. No two operations have the same.
    pub ticket: nat,
    pub op: QueueOp,
    pub stage: QueueStage,
    pub alive: bool,
    /// Whether it found the owner of the mutex dead and has not given the mutex back yet.
    pub recovering: bool,
    /// Whether it waits on its condition variable, the mutex released.
    pub asleep: bool,
    /// The memory as it read it, until it writes.
    pub seen: Option<(RingBufferHeader, Seq<u8>)>,
    /// How many looks at the memory there were when it began.
    pub begun: int,
    /// Which look moved its message, once one did.
    pub at: int,
    /// The message that it received, once it did.
    pub got: Seq<u8>,
}

/// An operation that succeeded.
pub struct Success {
    pub caller: nat,
    pub ticket: nat,
    pub op: QueueOp,
    /// How many looks at the memory there were when it began, and when it ended.
    pub begun: int,
    pub ended: int,
    /// Which look moved its message.
    pub at: int,
    /// The message that it received.
    pub got: Seq<u8>,
}

/// A queue and those who use it.
pub struct Shared {
    pub header: RingBufferHeader,
    pub buffer: Seq<u8>,
    pub mutex: Robust,
    pub callers: Map<nat, Caller>,
    /// All looks at the memory so far, as operations of a `History`. A message that was
    /// left half written is one too.
    pub looks: Seq<QueueOp>,
    /// The ticket behind each look.
    pub by: Seq<nat>,
    /// The operations that succeeded, in the order in which they ended.
    pub done: Seq<Success>,
    pub next_ticket: nat,
}

/// What can happen next.
pub enum Act {
    /// A caller begins an operation.
    Begin(nat, QueueOp),
    /// A caller that waits releases the mutex and sleeps.
    Sleep(nat),
    /// A caller that locks the mutex finds its owner dead, and owns it now.
    Recover(nat),
    /// A caller is told the outcome of its action. One that has recovered the mutex has
    /// given it back when it is told so.
    Answer(nat, QueueReply),
    /// A caller reads the memory.
    Read(nat),
    /// A caller writes what it made of the memory that it read.
    Write(nat),
    /// A caller dies and leaves this buffer. If it was about to write a message, some of
    /// the message may be there already.
    Die(nat, Seq<u8>),
}

/// Whether a look finds what it needs: room, or a message.
pub open spec fn moves(header: RingBufferHeader, op: QueueOp) -> bool {
    match op {
        QueueOp::Put(data) => header.has_room(data.len()),
        QueueOp::Get => header.write_pos > header.read_pos,
        QueueOp::Abandoned(_, _) => false,
    }
}

/// The header that a look leaves.
pub open spec fn header_after(
    header: RingBufferHeader,
    buffer: Seq<u8>,
    op: QueueOp,
) -> RingBufferHeader {
    match op {
        QueueOp::Put(data) => if moves(header, op) {
            header.after_put(data.len())
        } else {
            header
        },
        QueueOp::Get => if moves(header, op) {
            header.after_get(buffer)
        } else {
            header
        },
        QueueOp::Abandoned(_, _) => header,
    }
}

/// The buffer that a look leaves.
pub open spec fn buffer_after(header: RingBufferHeader, buffer: Seq<u8>, op: QueueOp) -> Seq<u8> {
    match op {
        QueueOp::Put(data) => if moves(header, op) {
            ring_write(buffer, header.write_pos as int, frame(data))
        } else {
            buffer
        },
        QueueOp::Get | QueueOp::Abandoned(_, _) => buffer,
    }
}

impl Caller {
    /// Whether the operation has ended.
    pub open spec fn has_ended(self) -> bool {
        self.stage is Done || self.stage is Failed
    }

    /// Whether the operation has moved its message and not ended yet.
    pub open spec fn has_moved(self) -> bool {
        self.stage is Notifying || self.stage is Unlocking
    }

    /// Whether the operation is at a place where it must own the mutex.
    pub open spec fn is_inside(self) -> bool {
        self.alive && {
            ||| self.recovering
            ||| self.stage is Checking
            ||| self.stage is Waiting && !self.asleep
            ||| self.has_moved()
        }
    }

    /// Whether the operation has found room for its message and may be writing it.
    pub open spec fn is_writing(self) -> bool {
        &&& self.op is Put
        &&& self.seen matches Some((header, _)) && moves(header, self.op)
    }
}

impl Shared {
    /// A queue that nobody uses.
    pub open spec fn start(history: History) -> Shared {
        Shared {
            header: history.header,
            buffer: history.buffer,
            mutex: Robust::free(),
            callers: Map::empty(),
            looks: Seq::empty(),
            by: Seq::empty(),
            done: Seq::empty(),
            next_ticket: 0,
        }
    }

    /// Whether there is a living caller of this number.
    pub open spec fn has(self, c: nat) -> bool {
        self.callers.dom().contains(c) && self.callers[c].alive
    }

    /// Whether this can happen now. The mutex goes only to those who find it free or its
    /// owner dead, be it that they lock it or that they wake up.
    pub open spec fn allows(self, act: Act) -> bool {
        match act {
            Act::Begin(c, op) => {
                &&& !(op is Abandoned)
                &&& self.callers.dom().contains(c) ==> self.has(c) && self.callers[c].has_ended()
            },
            Act::Sleep(c) => {
                &&& self.has(c)
                &&& self.callers[c].stage is Waiting
                &&& !self.callers[c].asleep
            },
            Act::Recover(c) => {
                &&& self.has(c)
                &&& self.callers[c].stage is Locking
                &&& !self.callers[c].recovering
                &&& self.mutex.is_orphaned()
            },
            Act::Answer(c, reply) => {
                let caller = self.callers[c];
                &&& self.has(c)
                &&& caller.stage.expects(reply)
                &&& !(reply is Access)
                &&& caller.stage is Locking && reply->Mutex_0 is Ok ==> {
                    &&& !caller.recovering
                    &&& self.mutex.attempt(c, true) matches Some((outcome, _)) && outcome is Ok
                }
                &&& caller.stage is Locking && reply->Mutex_0 == Err::<(), MutexError>(
                    MutexError::Recovered,
                ) ==> caller.recovering
                &&& caller.asleep ==> self.mutex.attempt(c, true) is Some
            },
            Act::Read(c) => {
                &&& self.has(c)
                &&& self.callers[c].stage is Checking
                &&& self.callers[c].seen is None
            },
            Act::Write(c) => {
                &&& self.has(c)
                &&& self.callers[c].stage is Checking
                &&& self.callers[c].seen is Some
            },
            Act::Die(c, left) => {
                let caller = self.callers[c];
                &&& self.has(c)
                &&& if caller.is_writing() {
                    half_written((caller.seen->0).0, self.buffer, left, caller.op->Put_0)
                } else {
                    left == self.buffer
                }
            },
        }
    }

    /// After an operation began.
    pub open spec fn after_begin(self, c: nat, op: QueueOp) -> Shared {
        let caller = Caller {
            ticket: self.next_ticket,
            op,
            stage: QueueStage::Locking,
            alive: true,
            recovering: false,
            asleep: false,
            seen: None,
            begun: self.looks.len() as int,
            at: 0,
            got: Seq::empty(),
        };
        Shared {
            callers: self.callers.insert(c, caller),
            next_ticket: self.next_ticket + 1,
            ..self
        }
    }

    /// The mutex after a caller was told an outcome.
    pub open spec fn mutex_after_answer(self, c: nat, reply: QueueReply) -> Robust {
        let before = self.callers[c];
        let next = before.stage.next(reply);
        if before.asleep || before.stage is Locking && next is Checking {
            (self.mutex.attempt(c, true)->0).1
        } else if next is Done || before.stage is Locking && next is Locking {
            self.mutex.release(c).1
        } else {
            self.mutex
        }
    }

    /// After a caller was told an outcome.
    pub open spec fn after_answer(self, c: nat, reply: QueueReply) -> Shared {
        let before = self.callers[c];
        let caller = Caller {
            stage: before.stage.next(reply),
            recovering: false,
            asleep: false,
            ..before
        };
        Shared {
            callers: self.callers.insert(c, caller),
            mutex: self.mutex_after_answer(c, reply),
            done: if caller.stage is Done {
                self.done.push(
                    Success {
                        caller: c,
                        ticket: before.ticket,
                        op: before.op,
                        begun: before.begun,
                        ended: self.looks.len() as int,
                        at: before.at,
                        got: before.got,
                    },
                )
            } else {
                self.done
            },
            ..self
        }
    }

    /// After a caller wrote what it made of the memory that it read.
    pub open spec fn after_write(self, c: nat) -> Shared {
        let before = self.callers[c];
        let (header, buffer) = before.seen->0;
        let moved = moves(header, before.op);
        let caller = Caller {
            stage: before.stage.next(QueueReply::Access { moved }),
            seen: None,
            at: if moved {
                self.looks.len() as int
            } else {
                before.at
            },
            got: if moved && before.op is Get {
                header.next_payload(buffer)
            } else {
                before.got
            },
            ..before
        };
        Shared {
            header: header_after(header, buffer, before.op),
            buffer: buffer_after(header, buffer, before.op),
            callers: self.callers.insert(c, caller),
            looks: self.looks.push(before.op),
            by: self.by.push(before.ticket),
            ..self
        }
    }

    /// After a caller died and left this buffer.
    pub open spec fn after_death(self, c: nat, left: Seq<u8>) -> Shared {
        let before = self.callers[c];
        let caller = Caller { alive: false, seen: None, ..before };
        Shared {
            buffer: left,
            mutex: if self.mutex.owner == Some(c) {
                Robust { alive: false, ..self.mutex }
            } else {
                self.mutex
            },
            callers: self.callers.insert(c, caller),
            looks: if before.is_writing() {
                self.looks.push(QueueOp::Abandoned(before.op->Put_0, left))
            } else {
                self.looks
            },
            by: if before.is_writing() {
                self.by.push(before.ticket)
            } else {
                self.by
            },
            ..self
        }
    }

    /// After something happened.
    pub open spec fn after(self, act: Act) -> Shared {
        match act {
            Act::Begin(c, op) => self.after_begin(c, op),
            Act::Sleep(c) => Shared {
                callers: self.callers.insert(c, Caller { asleep: true, ..self.callers[c] }),
                mutex: self.mutex.release(c).1,
                ..self
            },
            Act::Recover(c) => Shared {
                callers: self.callers.insert(c, Caller { recovering: true, ..self.callers[c] }),
                mutex: (self.mutex.attempt(c, true)->0).1,
                ..self
            },
            Act::Answer(c, reply) => self.after_answer(c, reply),
            Act::Read(c) => Shared {
                callers: self.callers.insert(
                    c,
                    Caller { seen: Some((self.header, self.buffer)), ..self.callers[c] },
                ),
                ..self
            },
            Act::Write(c) => self.after_write(c),
            Act::Die(c, left) => self.after_death(c, left),
        }
    }

    /// After a sequence of acts.
    pub open spec fn run(self, acts: Seq<Act>) -> Shared
        decreases acts.len(),
    {
        if acts.len() == 0 {
            self
        } else {
            self.run(acts.drop_last()).after(acts.last())
        }
    }

    /// Each act could happen when it did.
    pub open spec fn fits(self, acts: Seq<Act>) -> bool
        decreases acts.len(),
    {
        acts.len() > 0 ==> {
            &&& self.fits(acts.drop_last())
            &&& self.run(acts.drop_last()).allows(acts.last())
        }
    }
}

/// The look moved a message: in the history it appended the message that was put, or
/// took the message that was got.
pub open spec fn took_place(
    history: History,
    looks: Seq<QueueOp>,
    at: int,
    op: QueueOp,
    got: Seq<u8>,
) -> bool {
    let before = history.run(looks.take(at));
    let after = history.run(looks.take(at + 1));
    &&& 0 <= at < looks.len()
    &&& looks[at] == op
    &&& moves(before.header, op)
    &&& match op {
        QueueOp::Put(data) => after.accepted == before.accepted.push(data),
        QueueOp::Get => after.received == before.received.push(got),
        QueueOp::Abandoned(_, _) => false,
    }
}

/// The memory is that of the history of all looks, and what a caller has read of it
/// still holds.
spec fn memory_ok(history: History, now: Shared) -> bool {
    &&& now.header == history.run(now.looks).header
    &&& now.buffer == history.run(now.looks).buffer
    &&& now.by.len() == now.looks.len()
    &&& forall|c: nat| #[trigger]
        now.callers.dom().contains(c) ==> {
            &&& !(now.callers[c].op is Abandoned)
            &&& now.callers[c].seen is Some ==> {
                &&& now.callers[c].is_inside()
                &&& now.callers[c].stage is Checking
                &&& now.callers[c].seen == Some((now.header, now.buffer))
            }
        }
}

/// Whoever must own the mutex does, and the mutex knows whether its owner is alive.
spec fn mutex_ok(now: Shared) -> bool {
    &&& forall|c: nat| #[trigger]
        now.callers.dom().contains(c) ==> {
            &&& now.callers[c].is_inside() ==> now.mutex == Robust::owned_by(c)
            &&& now.callers[c].asleep ==> now.callers[c].stage is Waiting
            &&& now.callers[c].recovering ==> now.callers[c].stage is Locking
        }
    &&& match now.mutex.owner {
        Some(c) => now.callers.dom().contains(c) && now.callers[c].alive == now.mutex.alive,
        None => now.mutex == Robust::free(),
    }
}

/// What callers have moved, and what has succeeded, took place in the history.
spec fn moves_ok(history: History, now: Shared) -> bool {
    &&& forall|c: nat| #[trigger]
        now.callers.dom().contains(c) ==> {
            let caller = now.callers[c];
            &&& 0 <= caller.begun <= now.looks.len()
            &&& caller.has_moved() ==> {
                &&& caller.begun <= caller.at
                &&& now.by[caller.at] == caller.ticket
                &&& took_place(history, now.looks, caller.at, caller.op, caller.got)
            }
        }
    &&& forall|i: int|
        0 <= i < now.done.len() ==> {
            let success = #[trigger] now.done[i];
            &&& 0 <= success.begun <= success.at < success.ended <= now.looks.len()
            &&& now.by[success.at] == success.ticket
            &&& took_place(history, now.looks, success.at, success.op, success.got)
        }
}

/// A caller's operations follow each other.
spec fn order_ok(now: Shared) -> bool {
    &&& forall|i: int|
        0 <= i < now.done.len() ==> {
            let success = #[trigger] now.done[i];
            &&& now.callers.dom().contains(success.caller)
            &&& now.callers[success.caller].has_ended() || success.ended
                <= now.callers[success.caller].begun
        }
    &&& forall|i: int, j: int|
        0 <= i < j < now.done.len() && (#[trigger] now.done[i]).caller == (
        #[trigger] now.done[j]).caller ==> now.done[i].ended <= now.done[j].begun
}

/// Every operation has its own ticket, and no more than one look that moved a message.
spec fn tickets_ok(history: History, now: Shared) -> bool {
    &&& forall|c: nat| #[trigger]
        now.callers.dom().contains(c) ==> now.callers[c].ticket < now.next_ticket
    &&& forall|c: nat, d: nat|
        c != d && #[trigger] now.callers.dom().contains(c)
            && #[trigger] now.callers.dom().contains(d) ==> now.callers[c].ticket
            != now.callers[d].ticket
    &&& forall|i: int| 0 <= i < now.by.len() ==> #[trigger] now.by[i] < now.next_ticket
    &&& forall|i: int| 0 <= i < now.done.len() ==> (#[trigger] now.done[i]).ticket < now.next_ticket
    &&& forall|i: int, j: int|
        0 <= i < j < now.done.len() ==> (#[trigger] now.done[i]).ticket != (
        #[trigger] now.done[j]).ticket
    &&& forall|c: nat, i: int|
        #[trigger] now.callers.dom().contains(c) && 0 <= i < now.done.len()
            && !now.callers[c].has_ended() ==> (#[trigger] now.done[i]).ticket
            != now.callers[c].ticket
    &&& forall|c: nat, i: int|
        #[trigger] now.callers.dom().contains(c) && 0 <= i < now.looks.len()
            && !now.callers[c].has_ended() && !now.callers[c].has_moved() && #[trigger] now.by[i]
            == now.callers[c].ticket ==> !moves(history.run(now.looks.take(i)).header, now.looks[i])
    &&& forall|i: int, j: int|
        0 <= i < j < now.looks.len() && #[trigger] now.by[i] == #[trigger] now.by[j] ==> !moves(
            history.run(now.looks.take(i)).header,
            now.looks[i],
        ) || !moves(history.run(now.looks.take(j)).header, now.looks[j])
}

/// One more look leaves the history of the earlier ones as it was.
proof fn lemma_push(history: History, looks: Seq<QueueOp>, op: QueueOp)
    ensures
        history.run(looks.push(op)) == history.run(looks).after(op),
        looks.push(op).take(looks.len() as int) == looks,
        looks.push(op).take(looks.len() as int + 1) == looks.push(op),
        forall|i: int|
            0 <= i <= looks.len() ==> #[trigger] looks.push(op).take(i) == looks.take(i),
        looks.take(looks.len() as int) == looks,
{
    assert(looks.push(op).drop_last() =~= looks);
    assert(looks.push(op).take(looks.len() as int) =~= looks);
    assert(looks.push(op).take(looks.len() as int + 1) =~= looks.push(op));
    assert(looks.take(looks.len() as int) =~= looks);
    assert forall|i: int| 0 <= i <= looks.len() implies #[trigger] looks.push(op).take(i)
        == looks.take(i) by {
        assert(looks.push(op).take(i) =~= looks.take(i));
    }
}

/// An act adds one look at most.
proof fn lemma_look(history: History, now: Shared, act: Act)
    ensures
        now.after(act).looks == now.looks || now.after(act).looks.len() == now.looks.len() + 1,
        now.after(act).looks.len() == now.looks.len() + 1 ==> {
            let looks = now.after(act).looks;
            &&& history.run(looks) == history.run(now.looks).after(looks.last())
            &&& looks.take(now.looks.len() as int) == now.looks
            &&& looks.take(now.looks.len() as int + 1) == looks
        },
        forall|i: int|
            0 <= i <= now.looks.len() ==> #[trigger] now.after(act).looks.take(i)
                == now.looks.take(i),
        now.looks.take(now.looks.len() as int) == now.looks,
{
    match act {
        Act::Write(c) => {
            lemma_push(history, now.looks, now.callers[c].op);
        },
        Act::Die(c, left) => {
            lemma_push(
                history,
                now.looks,
                QueueOp::Abandoned(now.callers[c].op->Put_0, left),
            );
        },
        _ => {
            assert(now.looks.take(now.looks.len() as int) =~= now.looks);
        },
    }
}

proof fn lemma_memory(history: History, now: Shared, act: Act)
    requires
        memory_ok(history, now),
        mutex_ok(now),
        now.allows(act),
    ensures
        memory_ok(history, now.after(act)),
        mutex_ok(now.after(act)),
{
    lemma_look(history, now, act);
}

proof fn lemma_moves(history: History, now: Shared, act: Act)
    requires
        memory_ok(history, now),
        mutex_ok(now),
        moves_ok(history, now),
        now.allows(act),
    ensures
        moves_ok(history, now.after(act)),
{
    lemma_look(history, now, act);
}

proof fn lemma_order(history: History, now: Shared, act: Act)
    requires
        moves_ok(history, now),
        order_ok(now),
        now.allows(act),
    ensures
        order_ok(now.after(act)),
{
}

proof fn lemma_tickets(history: History, now: Shared, act: Act)
    requires
        memory_ok(history, now),
        mutex_ok(now),
        moves_ok(history, now),
        tickets_ok(history, now),
        now.allows(act),
    ensures
        tickets_ok(history, now.after(act)),
{
    lemma_look(history, now, act);
}

proof fn lemma_run(history: History, acts: Seq<Act>)
    requires
        Shared::start(history).fits(acts),
    ensures
        memory_ok(history, Shared::start(history).run(acts)),
        mutex_ok(Shared::start(history).run(acts)),
        moves_ok(history, Shared::start(history).run(acts)),
        order_ok(Shared::start(history).run(acts)),
        tickets_ok(history, Shared::start(history).run(acts)),
    decreases acts.len(),
{
    if acts.len() > 0 {
        lemma_run(history, acts.drop_last());
        let before = Shared::start(history).run(acts.drop_last());
        lemma_memory(history, before, acts.last());
        lemma_moves(history, before, acts.last());
        lemma_order(history, before, acts.last());
        lemma_tickets(history, before, acts.last());
    }
}

/// However the operations of several callers interleave, and whoever dies meanwhile, at
/// most one living caller is at a place where it reads, writes, announces or recovers,
/// and that one owns the mutex. What it has
/// read of the memory holds until it writes.
pub proof fn mutual_exclusion(history: History, acts: Seq<Act>, c: nat, d: nat)
    requires
        Shared::start(history).fits(acts),
        Shared::start(history).run(acts).callers.dom().contains(c),
        Shared::start(history).run(acts).callers.dom().contains(d),
        Shared::start(history).run(acts).callers[c].is_inside(),
        Shared::start(history).run(acts).callers[d].is_inside(),
    ensures
        c == d,
        Shared::start(history).run(acts).mutex == Robust::owned_by(c),
        Shared::start(history).run(acts).callers[c].seen matches Some(seen) ==> seen == (
            Shared::start(history).run(acts).header,
            Shared::start(history).run(acts).buffer,
        ),
{
    lemma_run(history, acts);
}

/// However the operations of several callers interleave, and whoever dies meanwhile,
/// they amount to one history, that of all looks at the memory and all messages left
/// half written, in their order: the memory is the one that the history leaves. Every
/// operation that succeeded has one look in it, between its beginning and its end, that
/// appended the message that it put, or took the message that it got; no other operation
/// has that look, and it has no other that moved anything. A caller's operations come in
/// the caller's order.
pub proof fn callers_amount_to_one_history(history: History, acts: Seq<Act>)
    requires
        Shared::start(history).fits(acts),
    ensures
        ({
            let end = Shared::start(history).run(acts);
            &&& end.header == history.run(end.looks).header
            &&& end.buffer == history.run(end.looks).buffer
            &&& forall|i: int|
                0 <= i < end.done.len() ==> {
                    let success = #[trigger] end.done[i];
                    &&& success.begun <= success.at < success.ended
                    &&& end.by[success.at] == success.ticket
                    &&& took_place(history, end.looks, success.at, success.op, success.got)
                }
            &&& forall|i: int, j: int|
                0 <= i < j < end.done.len() ==> (#[trigger] end.done[i]).ticket != (
                #[trigger] end.done[j]).ticket
            &&& forall|i: int, j: int|
                0 <= i < j < end.looks.len() && #[trigger] end.by[i] == #[trigger] end.by[j]
                    ==> !moves(history.run(end.looks.take(i)).header, end.looks[i]) || !moves(
                    history.run(end.looks.take(j)).header,
                    end.looks[j],
                )
            &&& forall|i: int, j: int|
                0 <= i < j < end.done.len() && (#[trigger] end.done[i]).caller == (
                #[trigger] end.done[j]).caller ==> end.done[i].at < end.done[j].at
        }),
{
    lemma_run(history, acts);
}

/// However the operations of several callers interleave, and whoever dies meanwhile,
/// what was received and what the queue still holds make up what was accepted: no
/// message is lost, doubled, torn, mixed with another one or overtaken. The capacity
/// never changes, neither position falls, and their distance is what the messages in
/// the queue take.
pub proof fn callers_share_one_queue(
    history: History,
    held: Seq<Seq<u8>>,
    acts: Seq<Act>,
) -> (left: Seq<Seq<u8>>)
    requires
        holds(history.header, history.buffer, held),
        history.accepted == history.received + held,
        Shared::start(history).fits(acts),
        all_sendable(Shared::start(history).run(acts).looks),
        positions_fit(history, Shared::start(history).run(acts).looks),
    ensures
        ({
            let end = Shared::start(history).run(acts);
            &&& holds(end.header, end.buffer, left)
            &&& history.run(end.looks).accepted == history.run(end.looks).received + left
            &&& end.header.capacity == history.header.capacity
            &&& end.header.read_pos >= history.header.read_pos
            &&& end.header.write_pos >= history.header.write_pos
            &&& end.header.write_pos - end.header.read_pos == occupied(left)
        }),
{
    lemma_run(history, acts);
    first_in_first_out(history, held, Shared::start(history).run(acts).looks)
}

/// The mutex is orphaned only if its owner died.
pub proof fn only_a_death_orphans(history: History, acts: Seq<Act>)
    requires
        Shared::start(history).fits(acts),
        Shared::start(history).run(acts).mutex.is_orphaned(),
    ensures
        ({
            let end = Shared::start(history).run(acts);
            &&& end.callers.dom().contains(end.mutex.owner->0)
            &&& !end.callers[end.mutex.owner->0].alive
        }),
{
    lemma_run(history, acts);
}

/// A death changes neither position and none of the messages in the queue. A caller that
/// dies while it owns the mutex leaves it orphaned, and all others are as before.
pub proof fn death_keeps_the_messages(history: History, acts: Seq<Act>, c: nat, left: Seq<u8>)
    requires
        Shared::start(history).fits(acts),
        Shared::start(history).run(acts).allows(Act::Die(c, left)),
        Shared::start(history).run(acts).header.wf(Shared::start(history).run(acts).buffer),
    ensures
        ({
            let end = Shared::start(history).run(acts);
            let after = end.after(Act::Die(c, left));
            &&& after.header == end.header
            &&& after.header.wf(after.buffer)
            &&& after.header.pending(after.buffer) == end.header.pending(end.buffer)
            &&& history.run(after.looks).accepted == history.run(end.looks).accepted
            &&& history.run(after.looks).received == history.run(end.looks).received
            &&& end.callers[c].is_inside() ==> after.mutex.is_orphaned()
            &&& forall|d: nat|
                d != c ==> {
                    &&& #[trigger] after.callers.dom().contains(d) == end.callers.dom().contains(d)
                    &&& after.callers[d] == end.callers[d]
                }
        }),
{
    lemma_run(history, acts);
    let end = Shared::start(history).run(acts);
    lemma_look(history, end, Act::Die(c, left));
    if end.callers[c].is_writing() {
        half_written_message_is_not_there(
            end.header,
            end.buffer,
            left,
            end.callers[c].op->Put_0,
        );
    }
}

/// The acts by which a caller that locks the mutex gets past a dead owner.
pub open spec fn recovery(d: nat) -> Seq<Act> {
    seq![
        Act::Recover(d),
        Act::Answer(d, QueueReply::Mutex(Err(MutexError::Recovered))),
        Act::Answer(d, QueueReply::Mutex(Ok(()))),
    ]
}

/// A caller that dies with the mutex in its hands keeps nobody out. Whoever locks the
/// mutex recovers it, gives it back, and acquires it with the next attempt; whoever
/// wakes up from a wait owns it at once. The memory is left alone.
pub proof fn death_keeps_nobody_out(history: History, acts: Seq<Act>, d: nat)
    requires
        Shared::start(history).fits(acts),
        Shared::start(history).run(acts).mutex.is_orphaned(),
        Shared::start(history).run(acts).has(d),
    ensures
        ({
            let start = Shared::start(history);
            let end = start.run(acts);
            let recovered = start.run(acts + recovery(d));
            &&& end.callers[d].stage is Locking ==> {
                &&& start.fits(acts + recovery(d))
                &&& lock_performed(end.mutex, d) == Some(
                    (
                        QueueReply::Mutex(Err(MutexError::Recovered)),
                        end.after(recovery(d)[0]).after(recovery(d)[1]).mutex,
                    ),
                )
                &&& recovered.callers[d].stage is Checking
                &&& recovered.mutex == Robust::owned_by(d)
                &&& recovered.header == end.header
                &&& recovered.buffer == end.buffer
            }
            &&& end.callers[d].asleep ==> {
                let woken = end.after(Act::Answer(d, QueueReply::Cond(Ok(()))));
                &&& end.allows(Act::Answer(d, QueueReply::Cond(Ok(()))))
                &&& woken.callers[d].stage is Checking
                &&& woken.mutex == Robust::owned_by(d)
                &&& woken.header == end.header
                &&& woken.buffer == end.buffer
            }
        }),
{
    lemma_run(history, acts);
    let start = Shared::start(history);
    let one = acts.push(recovery(d)[0]);
    let two = one.push(recovery(d)[1]);
    let three = two.push(recovery(d)[2]);
    assert(one.drop_last() =~= acts);
    assert(two.drop_last() =~= one);
    assert(three.drop_last() =~= two);
    assert(acts + recovery(d) =~= three);
    assert(start.run(one) == start.run(acts).after(recovery(d)[0]));
    assert(start.run(two) == start.run(one).after(recovery(d)[1]));
    assert(start.run(three) == start.run(two).after(recovery(d)[2]));
    if start.run(acts).callers[d].stage is Locking {
        assert(start.fits(one));
        assert(start.fits(two));
    }
}

} // verus!
