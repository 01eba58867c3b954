//! What the queue promises of messages: each is received once, unaltered, in the
//! order in which they were sent.

use crate::frame::{frame, le32, length_round_trip, LENGTH_BYTES};
use crate::ring::{
    read_back_what_was_written, ring_read, ring_write, write_keeps_earlier_bytes,
};
use crate::zoosync_core::queue::RingBufferHeader;
use vstd::prelude::*;

verus! {

/// The byte stream that carries the messages, first message first.
pub open spec fn stream(messages: Seq<Seq<u8>>) -> Seq<u8>
    decreases messages.len(),
{
    if messages.len() == 0 {
        Seq::empty()
    } else {
        frame(messages[0]) + stream(messages.drop_first())
    }
}

/// Whether a payload's length fits into the length field.
pub open spec fn sendable(message: Seq<u8>) -> bool {
    message.len() < 0x1_0000_0000
}

/// The queue holds exactly these messages, the oldest first.
pub open spec fn holds(header: RingBufferHeader, buffer: Seq<u8>, messages: Seq<Seq<u8>>) -> bool {
    &&& header.wf(buffer)
    &&& header.pending(buffer) == stream(messages)
    &&& forall|i: int| 0 <= i < messages.len() ==> sendable(#[trigger] messages[i])
}

/// A message at the end of the queue is a frame at the end of the stream.
pub proof fn stream_of_push(messages: Seq<Seq<u8>>, last: Seq<u8>)
    ensures
        stream(messages.push(last)) == stream(messages) + frame(last),
    decreases messages.len(),
{
    let longer = messages.push(last);
    if messages.len() == 0 {
        assert(longer.drop_first() =~= messages);
        assert(longer[0] == last);
        assert(stream(longer) == frame(last) + stream(messages));
        assert(frame(last) + stream(messages) =~= stream(messages) + frame(last));
    } else {
        assert(longer.drop_first() =~= messages.drop_first().push(last));
        stream_of_push(messages.drop_first(), last);
        assert(stream(longer) =~= stream(messages) + frame(last));
    }
}

/// How many bytes of the buffer messages take, their length fields included.
pub open spec fn occupied(messages: Seq<Seq<u8>>) -> nat
    decreases messages.len(),
{
    if messages.len() == 0 {
        0
    } else {
        messages[0].len() + LENGTH_BYTES as nat + occupied(messages.drop_first())
    }
}

proof fn lemma_stream_length(messages: Seq<Seq<u8>>)
    ensures
        stream(messages).len() == occupied(messages),
    decreases messages.len(),
{
    if messages.len() > 0 {
        lemma_stream_length(messages.drop_first());
    }
}

/// The distance between the two positions is what the messages in the queue take. It
/// never exceeds the capacity.
pub proof fn positions_tell_what_is_held(
    header: RingBufferHeader,
    buffer: Seq<u8>,
    messages: Seq<Seq<u8>>,
)
    requires
        holds(header, buffer, messages),
    ensures
        header.write_pos - header.read_pos == occupied(messages),
        occupied(messages) <= header.capacity,
{
    lemma_stream_length(messages);
    assert(header.pending(buffer).len() == header.write_pos - header.read_pos);
}

/// A new queue holds no message.
pub proof fn new_queue_is_empty(buffer: Seq<u8>, init_done: u64)
    requires
        buffer.len() <= u64::MAX,
    ensures
        holds(
            RingBufferHeader {
                read_pos: 0,
                write_pos: 0,
                capacity: buffer.len() as u64,
                init_done,
            },
            buffer,
            Seq::empty(),
        ),
{
    let header = RingBufferHeader {
        read_pos: 0,
        write_pos: 0,
        capacity: buffer.len() as u64,
        init_done,
    };
    assert(header.pending(buffer) =~= stream(Seq::empty()));
}

/// Putting a message appends its frame to the pending bytes, whatever is pending,
/// and keeps the positions within the buffer.
pub proof fn put_appends_frame(header: RingBufferHeader, buffer: Seq<u8>, data: Seq<u8>)
    requires
        header.wf(buffer),
        header.has_room(data.len()),
        header.write_pos + LENGTH_BYTES + data.len() <= u64::MAX,
    ensures
        ({
            let written = ring_write(buffer, header.write_pos as int, frame(data));
            &&& header.after_put(data.len()).wf(written)
            &&& header.after_put(data.len()).pending(written) == header.pending(buffer) + frame(
                data,
            )
        }),
{
    let start = header.read_pos as int;
    let pos = header.write_pos as int;
    let written = ring_write(buffer, pos, frame(data));
    read_back_what_was_written(buffer, pos, frame(data));
    write_keeps_earlier_bytes(buffer, start, (pos - start) as nat, pos, frame(data));
    let pending = header.after_put(data.len()).pending(written);
    let old_part = ring_read(written, start, (pos - start) as nat);
    let new_part = ring_read(written, pos, frame(data).len());
    assert forall|i: int| 0 <= i < pending.len() implies pending[i] == (old_part + new_part)[i] by {
        if i >= pos - start {
            assert(start + i == pos + (i - (pos - start)));
        }
    }
    assert(pending =~= old_part + new_part);
}

/// Putting a message makes it the last one.
pub proof fn put_adds_last(
    header: RingBufferHeader,
    buffer: Seq<u8>,
    messages: Seq<Seq<u8>>,
    data: Seq<u8>,
)
    requires
        holds(header, buffer, messages),
        header.has_room(data.len()),
        header.write_pos + LENGTH_BYTES + data.len() <= u64::MAX,
        sendable(data),
    ensures
        holds(
            header.after_put(data.len()),
            ring_write(buffer, header.write_pos as int, frame(data)),
            messages.push(data),
        ),
{
    put_appends_frame(header, buffer, data);
    stream_of_push(messages, data);
}

/// A queue is empty, as `get` sees it, exactly if it holds no message.
pub proof fn empty_means_no_message(
    header: RingBufferHeader,
    buffer: Seq<u8>,
    messages: Seq<Seq<u8>>,
)
    requires
        holds(header, buffer, messages),
    ensures
        header.write_pos > header.read_pos <==> messages.len() > 0,
{
    assert(header.pending(buffer).len() == header.write_pos - header.read_pos);
    if messages.len() > 0 {
        assert(frame(messages[0]).len() >= 4);
    }
}

/// Getting a message yields the first one and leaves the others. All that `get`
/// demands of the memory holds.
pub proof fn get_takes_first(
    header: RingBufferHeader,
    buffer: Seq<u8>,
    messages: Seq<Seq<u8>>,
)
    requires
        holds(header, buffer, messages),
        messages.len() > 0,
    ensures
        header.can_get(buffer),
        header.next_payload(buffer) == messages[0],
        holds(header.after_get(buffer), buffer, messages.drop_first()),
{
    let capacity = buffer.len() as int;
    let start = header.read_pos as int;
    let first = messages[0];
    let rest = messages.drop_first();
    let pending = header.pending(buffer);
    let whole = frame(first) + stream(rest);
    assert(pending == whole);
    assert(pending.len() == header.write_pos - header.read_pos);
    assert(sendable(messages[0]));

    let field = ring_read(buffer, start, 4);
    assert forall|i: int| 0 <= i < 4 implies field[i] == le32(first.len() as int)[i] by {
        assert(field[i] == pending[i]);
        assert(whole[i] == frame(first)[i]);
    }
    assert(field =~= le32(first.len() as int));
    length_round_trip(first.len());
    assert(first.len() % 0x1_0000_0000 == first.len()) by (nonlinear_arith)
        requires
            first.len() < 0x1_0000_0000,
    ;
    assert(header.next_len(buffer) == first.len());

    let payload = header.next_payload(buffer);
    assert forall|i: int| 0 <= i < first.len() implies payload[i] == first[i] by {
        assert(start + LENGTH_BYTES + i == start + (4 + i));
        assert(payload[i] == pending[4 + i]);
        assert(whole[4 + i] == frame(first)[4 + i]);
    }
    assert(payload =~= first);

    let after = header.after_get(buffer);
    let n = 4 + first.len() as int;
    assert(after.read_pos == start + n);
    assert forall|i: int| 0 <= i < stream(rest).len() implies after.pending(buffer)[i] == stream(
        rest,
    )[i] by {
        assert(after.read_pos + i == start + (n + i));
        assert(after.pending(buffer)[i] == pending[n + i]);
        assert(whole[n + i] == stream(rest)[i]);
    }
    assert(after.pending(buffer) =~= stream(rest));
    assert forall|i: int| 0 <= i < rest.len() implies sendable(#[trigger] rest[i]) by {
        assert(rest[i] == messages[i + 1]);
    }

    assert(0 <= start % capacity < capacity) by (nonlinear_arith)
        requires
            capacity > 0,
    ;
    assert(0 <= (start + LENGTH_BYTES) % capacity < capacity) by (nonlinear_arith)
        requires
            capacity > 0,
    ;
}

/// A message that is longer than the buffer, length field included, never fits.
pub proof fn oversized_never_fits(header: RingBufferHeader, buffer: Seq<u8>, len: nat)
    requires
        header.wf(buffer),
        len + LENGTH_BYTES > buffer.len(),
    ensures
        !header.has_room(len),
{
}

/// Into an empty queue every message fits that the buffer can hold at all.
pub proof fn empty_queue_has_room(header: RingBufferHeader, buffer: Seq<u8>, len: nat)
    requires
        header.wf(buffer),
        header.read_pos == header.write_pos,
        len + LENGTH_BYTES <= buffer.len(),
    ensures
        header.has_room(len),
{
}

/// A message was written in part: each byte is the old one, or the one that writing all
/// of it would leave.
pub open spec fn half_written(
    header: RingBufferHeader,
    before: Seq<u8>,
    after: Seq<u8>,
    data: Seq<u8>,
) -> bool {
    let whole = ring_write(before, header.write_pos as int, frame(data));
    &&& after.len() == before.len()
    &&& forall|i: int|
        0 <= i < before.len() ==> #[trigger] after[i] == before[i] || after[i] == whole[i]
}

/// As long as the position is not stored, a message that is being written changes
/// nothing of what the queue holds.
pub proof fn half_written_message_is_not_there(
    header: RingBufferHeader,
    buffer: Seq<u8>,
    after: Seq<u8>,
    data: Seq<u8>,
)
    requires
        header.wf(buffer),
        header.has_room(data.len()),
        half_written(header, buffer, after, data),
    ensures
        header.wf(after),
        header.pending(after) == header.pending(buffer),
{
    let start = header.read_pos as int;
    let pos = header.write_pos as int;
    let capacity = buffer.len() as int;
    let whole = ring_write(buffer, pos, frame(data));
    write_keeps_earlier_bytes(buffer, start, (pos - start) as nat, pos, frame(data));
    let kept = ring_read(whole, start, (pos - start) as nat);
    let pending = header.pending(buffer);
    assert forall|i: int| 0 <= i < pending.len() implies header.pending(after)[i] == pending[i] by {
        let at = (start + i) % capacity;
        assert(0 <= at < capacity) by (nonlinear_arith)
            requires
                at == (start + i) % capacity,
                capacity > 0,
        ;
        assert(kept[i] == whole[at]);
        assert(pending[i] == buffer[at]);
        assert(after[at] == buffer[at] || after[at] == whole[at]);
    }
    assert(header.pending(after) =~= pending);
}

/// One side's use of the queue.
pub enum QueueOp {
    Put(Seq<u8>),
    Get,
    /// A put whose sender died while it wrote the message, with the buffer that it left.
    Abandoned(Seq<u8>, Seq<u8>),
}

/// A queue in memory, with the messages that it accepted and those that it handed
/// out, each in order.
pub struct History {
    pub header: RingBufferHeader,
    pub buffer: Seq<u8>,
    pub accepted: Seq<Seq<u8>>,
    pub received: Seq<Seq<u8>>,
}

impl History {
    /// After one operation. One that would have to wait changes nothing.
    pub open spec fn after(self, op: QueueOp) -> History {
        match op {
            QueueOp::Put(data) => if self.header.has_room(data.len()) {
                History {
                    header: self.header.after_put(data.len()),
                    buffer: ring_write(self.buffer, self.header.write_pos as int, frame(data)),
                    accepted: self.accepted.push(data),
                    ..self
                }
            } else {
                self
            },
            QueueOp::Get => if self.header.write_pos > self.header.read_pos {
                History {
                    header: self.header.after_get(self.buffer),
                    received: self.received.push(self.header.next_payload(self.buffer)),
                    ..self
                }
            } else {
                self
            },
            QueueOp::Abandoned(data, buffer) => if self.header.has_room(data.len())
                && half_written(self.header, self.buffer, buffer, data) {
                History { buffer, ..self }
            } else {
                self
            },
        }
    }

    /// After a sequence of operations.
    pub open spec fn run(self, ops: Seq<QueueOp>) -> History
        decreases ops.len(),
    {
        if ops.len() == 0 {
            self
        } else {
            self.run(ops.drop_last()).after(ops.last())
        }
    }
}

/// The positions behind all messages that are written are 64-bit numbers.
pub open spec fn positions_fit(start: History, ops: Seq<QueueOp>) -> bool {
    forall|i: int|
        0 <= i < ops.len() ==> (#[trigger] ops[i] matches QueueOp::Put(data) ==> {
            let header = start.run(ops.take(i)).header;
            header.has_room(data.len()) ==> header.write_pos + LENGTH_BYTES + data.len() <= u64::MAX
        })
}

/// Every payload has a length that the length field can record.
pub open spec fn all_sendable(ops: Seq<QueueOp>) -> bool {
    forall|i: int| 0 <= i < ops.len() ==> (#[trigger] ops[i] matches QueueOp::Put(data)
        ==> sendable(data))
}

/// Whatever the order of puts and gets, what was received and what the queue still
/// holds make up what was accepted: no message is lost, doubled, altered or
/// overtaken. The capacity never changes, and neither position falls.
pub proof fn first_in_first_out(
    start: History,
    held: Seq<Seq<u8>>,
    ops: Seq<QueueOp>,
) -> (left: Seq<Seq<u8>>)
    requires
        holds(start.header, start.buffer, held),
        start.accepted == start.received + held,
        all_sendable(ops),
        positions_fit(start, ops),
    ensures
        holds(start.run(ops).header, start.run(ops).buffer, left),
        start.run(ops).accepted == start.run(ops).received + left,
        start.run(ops).header.capacity == start.header.capacity,
        start.run(ops).header.init_done == start.header.init_done,
        start.run(ops).header.read_pos >= start.header.read_pos,
        start.run(ops).header.write_pos >= start.header.write_pos,
        start.run(ops).header.write_pos - start.run(ops).header.read_pos == occupied(left),
    decreases ops.len(),
{
    if ops.len() == 0 {
        positions_tell_what_is_held(start.header, start.buffer, held);
        held
    } else {
        let before = ops.drop_last();
        assert forall|i: int| 0 <= i < before.len() implies (#[trigger] before[i] matches
            QueueOp::Put(data) ==> sendable(data)) by {
            assert(before[i] == ops[i]);
        }
        assert forall|i: int| 0 <= i < before.len() implies (#[trigger] before[i] matches
            QueueOp::Put(data) ==> {
            let header = start.run(before.take(i)).header;
            header.has_room(data.len()) ==> header.write_pos + LENGTH_BYTES + data.len() <= u64::MAX
        }) by {
            assert(before[i] == ops[i]);
            assert(before.take(i) =~= ops.take(i));
        }
        assert(ops.take(ops.len() - 1) =~= before);
        let mid = first_in_first_out(start, held, before);
        let state = start.run(before);
        assert(start.run(ops) == state.after(ops.last()));
        assert(ops.last() == ops[ops.len() - 1]);
        let left = match ops.last() {
            QueueOp::Put(data) => {
                if state.header.has_room(data.len()) {
                    put_adds_last(state.header, state.buffer, mid, data);
                    assert(state.accepted.push(data) =~= state.received + mid.push(data));
                    mid.push(data)
                } else {
                    mid
                }
            },
            QueueOp::Get => {
                empty_means_no_message(state.header, state.buffer, mid);
                if state.header.write_pos > state.header.read_pos {
                    get_takes_first(state.header, state.buffer, mid);
                    assert(state.accepted =~= state.received.push(mid[0]) + mid.drop_first());
                    mid.drop_first()
                } else {
                    mid
                }
            },
            QueueOp::Abandoned(data, buffer) => {
                if state.header.has_room(data.len()) && half_written(
                    state.header,
                    state.buffer,
                    buffer,
                    data,
                ) {
                    half_written_message_is_not_there(state.header, state.buffer, buffer, data);
                }
                mid
            },
        };
        positions_tell_what_is_held(start.run(ops).header, start.run(ops).buffer, left);
        left
    }
}

} // verus!
