//! Circular byte storage: blocks written at an ever-growing position land in a
//! fixed buffer, at the position modulo the buffer's length.

use vstd::arithmetic::div_mod::lemma_mod_multiples_vanish;
use vstd::prelude::*;

verus! {

/// The `len` bytes that start at stream position `pos` of a circular buffer.
pub open spec fn ring_read(buffer: Seq<u8>, pos: int, len: nat) -> Seq<u8> {
    Seq::new(len, |i: int| buffer[(pos + i) % (buffer.len() as int)])
}

/// The circular buffer after `src` was written at stream position `pos`: the slot
/// that lies `k` places behind `pos` holds `src[k]`, every other slot is as it was.
pub open spec fn ring_write(buffer: Seq<u8>, pos: int, src: Seq<u8>) -> Seq<u8> {
    Seq::new(
        buffer.len(),
        |j: int|
            {
                let k = (j - pos) % (buffer.len() as int);
                if k < src.len() {
                    src[k]
                } else {
                    buffer[j]
                }
            },
    )
}

/// Whether a block of `len` bytes at stream position `pos` can be copied with at
/// most one wrap around the end of the buffer.
pub open spec fn one_wrap(pos: int, len: int, capacity: int) -> bool {
    &&& capacity > 0
    &&& pos % capacity + len <= 2 * capacity
}

/// The remainder of a sum whose second part stays within two turns.
proof fn lemma_slot(pos: int, i: int, capacity: int)
    requires
        capacity > 0,
        0 <= i,
        pos % capacity + i < 2 * capacity,
    ensures
        (pos + i) % capacity == if pos % capacity + i < capacity {
            pos % capacity + i
        } else {
            pos % capacity + i - capacity
        },
{
    let o = pos % capacity;
    let q = pos / capacity;
    assert(pos == capacity * q + o) by (nonlinear_arith)
        requires
            capacity > 0,
            o == pos % capacity,
            q == pos / capacity,
    ;
    assert(0 <= o < capacity) by (nonlinear_arith)
        requires
            capacity > 0,
            o == pos % capacity,
    ;
    lemma_mod_multiples_vanish(q, o + i, capacity);
    if o + i < capacity {
        assert((o + i) % capacity == o + i) by (nonlinear_arith)
            requires
                0 <= o + i < capacity,
        ;
    } else {
        lemma_mod_multiples_vanish(1, o + i - capacity, capacity);
        assert(capacity * 1 + (o + i - capacity) == o + i);
        assert((o + i - capacity) % capacity == o + i - capacity) by (nonlinear_arith)
            requires
                0 <= o + i - capacity < capacity,
        ;
    }
}

/// How far slot `j` lies behind position `pos`.
proof fn lemma_distance(pos: int, j: int, capacity: int)
    requires
        capacity > 0,
        0 <= j < capacity,
    ensures
        (j - pos) % capacity == if j >= pos % capacity {
            j - pos % capacity
        } else {
            j - pos % capacity + capacity
        },
        0 <= pos % capacity < capacity,
{
    let o = pos % capacity;
    let q = pos / capacity;
    assert(pos == capacity * q + o) by (nonlinear_arith)
        requires
            capacity > 0,
            o == pos % capacity,
            q == pos / capacity,
    ;
    assert(0 <= o < capacity) by (nonlinear_arith)
        requires
            capacity > 0,
            o == pos % capacity,
    ;
    lemma_mod_multiples_vanish(-q, j - o, capacity);
    assert(capacity * (-q) + (j - o) == j - pos) by (nonlinear_arith)
        requires
            pos == capacity * q + o,
    ;
    if j >= o {
        assert((j - o) % capacity == j - o) by (nonlinear_arith)
            requires
                0 <= j - o < capacity,
        ;
    } else {
        lemma_mod_multiples_vanish(-1, j - o + capacity, capacity);
        assert(capacity * (-1) + (j - o + capacity) == j - o);
        assert((j - o + capacity) % capacity == j - o + capacity) by (nonlinear_arith)
            requires
                0 <= j - o + capacity < capacity,
        ;
    }
}

/// A block that fits into the buffer is read back as it was written.
pub proof fn read_back_what_was_written(buffer: Seq<u8>, pos: int, src: Seq<u8>)
    requires
        src.len() <= buffer.len(),
    ensures
        ring_read(ring_write(buffer, pos, src), pos, src.len()) == src,
{
    let capacity = buffer.len() as int;
    let after = ring_write(buffer, pos, src);
    assert forall|i: int| 0 <= i < src.len() implies ring_read(after, pos, src.len())[i]
        == src[i] by {
        lemma_distance(pos, 0, capacity);
        lemma_slot(pos, i, capacity);
        lemma_distance(pos, (pos + i) % capacity, capacity);
    }
    assert(ring_read(after, pos, src.len()) =~= src);
}

/// A write leaves alone every block that ends where the write begins, or before,
/// as long as block and write together span no more than the buffer.
pub proof fn write_keeps_earlier_bytes(
    buffer: Seq<u8>,
    start: int,
    len: nat,
    pos: int,
    src: Seq<u8>,
)
    requires
        start + len <= pos,
        pos + src.len() <= start + buffer.len(),
    ensures
        ring_read(ring_write(buffer, pos, src), start, len) == ring_read(buffer, start, len),
{
    let capacity = buffer.len() as int;
    let after = ring_write(buffer, pos, src);
    assert forall|i: int| 0 <= i < len implies ring_read(after, start, len)[i] == ring_read(
        buffer,
        start,
        len,
    )[i] by {
        lemma_gap(start + i, pos, capacity);
    }
    assert(ring_read(after, start, len) =~= ring_read(buffer, start, len));
}

/// A slot written `pos - earlier` places before `pos` lies that many places short
/// of a full turn behind it.
proof fn lemma_gap(earlier: int, pos: int, capacity: int)
    requires
        capacity > 0,
        0 < pos - earlier <= capacity,
    ensures
        0 <= earlier % capacity < capacity,
        (earlier % capacity - pos) % capacity == capacity - (pos - earlier),
{
    let o = earlier % capacity;
    let q = earlier / capacity;
    let r = capacity - (pos - earlier);
    assert(earlier == capacity * q + o) by (nonlinear_arith)
        requires
            capacity > 0,
            o == earlier % capacity,
            q == earlier / capacity,
    ;
    assert(0 <= o < capacity) by (nonlinear_arith)
        requires
            capacity > 0,
            o == earlier % capacity,
    ;
    lemma_mod_multiples_vanish(-q - 1, r, capacity);
    assert(capacity * (-q - 1) + r == o - pos) by (nonlinear_arith)
        requires
            earlier == capacity * q + o,
            r == capacity - (pos - earlier),
    ;
    assert(r % capacity == r) by (nonlinear_arith)
        requires
            0 <= r < capacity,
    ;
}

/// Two writes, the second where the first ended, are one write of both blocks.
pub proof fn writes_in_succession(buffer: Seq<u8>, pos: int, first: Seq<u8>, second: Seq<u8>)
    requires
        first.len() + second.len() <= buffer.len(),
    ensures
        ring_write(ring_write(buffer, pos, first), pos + first.len(), second) == ring_write(
            buffer,
            pos,
            first + second,
        ),
{
    let capacity = buffer.len() as int;
    let mid = ring_write(buffer, pos, first);
    let after = ring_write(mid, pos + first.len(), second);
    let whole = ring_write(buffer, pos, first + second);
    assert forall|j: int| 0 <= j < capacity implies after[j] == whole[j] by {
        let k = (j - pos) % capacity;
        lemma_distance(pos, j, capacity);
        let n = first.len() as int;
        let m = (j - (pos + n)) % capacity;
        // `m` is `k - n`, one turn further where that is negative.
        let q = (j - pos) / capacity;
        assert(j - pos == capacity * q + k) by (nonlinear_arith)
            requires
                capacity > 0,
                k == (j - pos) % capacity,
                q == (j - pos) / capacity,
        ;
        if k >= n {
            lemma_mod_multiples_vanish(q, k - n, capacity);
            assert((k - n) % capacity == k - n) by (nonlinear_arith)
                requires
                    0 <= k - n < capacity,
            ;
            assert(m == k - n);
        } else {
            lemma_mod_multiples_vanish(q - 1, k - n + capacity, capacity);
            assert(capacity * (q - 1) + (k - n + capacity) == j - (pos + n)) by (nonlinear_arith)
                requires
                    j - pos == capacity * q + k,
            ;
            assert((k - n + capacity) % capacity == k - n + capacity) by (nonlinear_arith)
                requires
                    0 <= k - n + capacity < capacity,
            ;
            assert(m == k - n + capacity);
        }
    }
    assert(after =~= whole);
}

/// Copies `len` bytes of `src`, from index `from` on, into `dst`, from index `at` on.
fn copy_block(dst: &mut [u8], at: usize, src: &[u8], from: usize, len: usize)
    requires
        at + len <= old(dst)@.len(),
        from + len <= src@.len(),
    ensures
        final(dst)@.len() == old(dst)@.len(),
        forall|j: int|
            0 <= j < old(dst)@.len() ==> #[trigger] final(dst)@[j] == if at <= j < at + len {
                src@[from + (j - at)]
            } else {
                old(dst)@[j]
            },
{
    let mut i: usize = 0;
    assert(dst@.len() == dst.len());
    assert(src@.len() == src.len());
    while i < len
        invariant
            i <= len,
            at + len <= dst@.len() <= usize::MAX,
            from + len <= src@.len() <= usize::MAX,
            dst@.len() == old(dst)@.len(),
            forall|j: int|
                0 <= j < dst@.len() ==> #[trigger] dst@[j] == if at <= j < at + i {
                    src@[from + (j - at)]
                } else {
                    old(dst)@[j]
                },
        decreases len - i,
    {
        dst[at + i] = src[from + i];
        i = i + 1;
    }
}

/// Writes `src` at stream position `pos`, wrapping around the end of the buffer.
pub fn write_block_at(buffer: &mut [u8], pos: u64, src: &[u8])
    requires
        src@.len() <= old(buffer)@.len(),
    ensures
        final(buffer)@ == ring_write(old(buffer)@, pos as int, src@),
{
    let len: usize = src.len();
    let capacity: usize = buffer.len();
    if len == 0 {
        assert(ring_write(buffer@, pos as int, src@) =~= buffer@) by {
            assert forall|j: int| 0 <= j < buffer@.len() implies ring_write(
                buffer@,
                pos as int,
                src@,
            )[j] == buffer@[j] by {
                lemma_distance(pos as int, j, capacity as int);
            }
        }
        return ;
    }
    let offset: usize = (pos % (capacity as u64)) as usize;
    let available: usize = capacity - offset;
    if available >= len {
        copy_block(buffer, offset, src, 0, len);
    } else {
        copy_block(buffer, offset, src, 0, available);
        copy_block(buffer, 0, src, available, len - available);
    }
    proof {
        let before = old(buffer)@;
        let expected = ring_write(before, pos as int, src@);
        assert forall|j: int| 0 <= j < before.len() implies buffer@[j] == expected[j] by {
            lemma_distance(pos as int, j, capacity as int);
        }
        assert(buffer@ =~= expected);
    }
}

/// Reads `dst.len()` bytes from stream position `pos` on, wrapping around the end
/// of the buffer.
pub fn read_block_at(buffer: &[u8], pos: u64, dst: &mut [u8])
    requires
        old(dst)@.len() == 0 || one_wrap(pos as int, old(dst)@.len() as int, buffer@.len() as int),
    ensures
        final(dst)@ == ring_read(buffer@, pos as int, old(dst)@.len()),
{
    let len: usize = dst.len();
    let capacity: usize = buffer.len();
    if len == 0 {
        assert(dst@ =~= ring_read(buffer@, pos as int, dst@.len()));
        return ;
    }
    let offset: usize = (pos % (capacity as u64)) as usize;
    let available: usize = capacity - offset;
    if available >= len {
        copy_block(dst, 0, buffer, offset, len);
    } else {
        copy_block(dst, 0, buffer, offset, available);
        copy_block(dst, available, buffer, 0, len - available);
    }
    proof {
        let expected = ring_read(buffer@, pos as int, len as nat);
        assert forall|i: int| 0 <= i < len implies dst@[i] == expected[i] by {
            lemma_slot(pos as int, i, capacity as int);
        }
        assert(dst@ =~= expected);
    }
}

/// Where in a buffer a stream position lies.
pub open spec fn slot(pos: int, capacity: int) -> int {
    pos % capacity
}

/// Writing at a position puts each byte at its own position modulo the length of the
/// buffer. From there on, up to where the write began one turn ago, nothing changes.
pub proof fn written_bytes_lie_at_their_positions(buffer: Seq<u8>, pos: int, src: Seq<u8>)
    requires
        src.len() <= buffer.len(),
    ensures
        ring_write(buffer, pos, src).len() == buffer.len(),
        forall|i: int|
            0 <= i < src.len() ==> ring_write(buffer, pos, src)[slot(pos + i, buffer.len() as int)]
                == #[trigger] src[i],
        forall|p: int|
            pos + src.len() <= p < pos + buffer.len() ==> ring_write(buffer, pos, src)[
            #[trigger] slot(p, buffer.len() as int)] == buffer[slot(p, buffer.len() as int)],
{
    let capacity = buffer.len() as int;
    let after = ring_write(buffer, pos, src);
    assert forall|p: int| pos <= p < pos + capacity implies (#[trigger] slot(p, capacity) - pos)
        % capacity == p - pos by {
        lemma_distance(pos, 0, capacity);
        lemma_slot(pos, p - pos, capacity);
        lemma_distance(pos, slot(p, capacity), capacity);
    }
    assert forall|p: int| pos <= p < pos + capacity implies 0 <= #[trigger] slot(p, capacity)
        < capacity by {
        lemma_distance(p, 0, capacity);
    }
    assert forall|i: int| 0 <= i < src.len() implies after[slot(pos + i, capacity)]
        == #[trigger] src[i] by {
        assert((slot(pos + i, capacity) - pos) % capacity == i);
    }
}

/// What is written is found where its position says, modulo the length of the buffer;
/// from there on, up to where the write began one turn ago, nothing changes. Any block
/// can be written that is no longer than the buffer.
pub proof fn write_goes_to_its_position()
    ensures
        forall|buffer: &mut [u8], pos: u64, src: &[u8]|
            src@.len() <= buffer@.len() ==> #[trigger] call_requires(
                write_block_at,
                (buffer, pos, src),
            ),
        forall|buffer: &mut [u8], pos: u64, src: &[u8]|
            src@.len() <= buffer@.len() && #[trigger] call_ensures(
                write_block_at,
                (buffer, pos, src),
                (),
            ) ==> is_written(buffer@, final(buffer)@, pos as int, src@),
{
    assert forall|buffer: &mut [u8], pos: u64, src: &[u8]|
        src@.len() <= buffer@.len() && #[trigger] call_ensures(
            write_block_at,
            (buffer, pos, src),
            (),
        ) implies is_written(buffer@, final(buffer)@, pos as int, src@) by {
        written_bytes_lie_at_their_positions(buffer@, pos as int, src@);
    }
}

/// The second buffer has the bytes of `src` at their positions, and otherwise those of
/// the first.
pub open spec fn is_written(before: Seq<u8>, after: Seq<u8>, pos: int, src: Seq<u8>) -> bool {
    let capacity = before.len() as int;
    &&& after.len() == before.len()
    &&& forall|i: int|
        0 <= i < src.len() ==> after[slot(pos + i, capacity)] == #[trigger] src[i]
    &&& forall|p: int|
        pos + src.len() <= p < pos + capacity ==> after[#[trigger] slot(p, capacity)]
            == before[slot(p, capacity)]
}

/// What is read are the bytes from the position on, each found at its own position
/// modulo the length of the buffer. Any block can be read that runs over the end of the
/// buffer once at most.
pub proof fn read_comes_from_its_position()
    ensures
        forall|buffer: &[u8], pos: u64, dst: &mut [u8]|
            dst@.len() == 0 || (buffer@.len() > 0 && pos as int % (buffer@.len() as int)
                + dst@.len() <= 2 * buffer@.len()) ==> #[trigger] call_requires(
                read_block_at,
                (buffer, pos, dst),
            ),
        forall|buffer: &[u8], pos: u64, dst: &mut [u8]| #[trigger]
            call_ensures(read_block_at, (buffer, pos, dst), ()) ==> {
                &&& final(dst)@.len() == dst@.len()
                &&& forall|i: int|
                    0 <= i < dst@.len() ==> #[trigger] final(dst)@[i] == buffer@[(pos + i) % (
                    buffer@.len() as int)]
            },
{
}

} // verus!
