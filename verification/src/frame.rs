//! Message framing: a message travels as a little-endian length of four bytes,
//! followed by its payload.

use vstd::prelude::*;

verus! {

/// The number of bytes in front of each payload.
pub const LENGTH_BYTES: u64 = 4;

/// The low 32 bits of `n`, least significant byte first.
pub open spec fn le32(n: int) -> Seq<u8> {
    seq![
        (n % 256) as u8,
        (n / 256 % 256) as u8,
        (n / 65536 % 256) as u8,
        (n / 16777216 % 256) as u8,
    ]
}

/// The number that four bytes stand for, least significant byte first.
pub open spec fn le32_value(bytes: Seq<u8>) -> nat {
    (bytes[0] + 256 * bytes[1] + 65536 * bytes[2] + 16777216 * bytes[3]) as nat
}

/// A message as it lies in the stream. Only the low 32 bits of the payload's length
/// are recorded.
pub open spec fn frame(data: Seq<u8>) -> Seq<u8> {
    le32(data.len() as int) + data
}

/// A recorded length is read back modulo 2^32.
pub proof fn length_round_trip(n: nat)
    ensures
        le32_value(le32(n as int)) == n % 0x1_0000_0000,
{
    let a = n % 256;
    let b = n / 256 % 256;
    let c = n / 65536 % 256;
    let d = n / 16777216 % 256;
    assert(n / 65536 == (n / 256) / 256);
    assert(n / 16777216 == (n / 65536) / 256);
    assert(n % 0x1_0000_0000 == a + 256 * b + 65536 * c + 16777216 * d);
}

/// The length field of a message of `len` payload bytes.
pub fn length_field(len: u64) -> (field: [u8; 4])
    ensures
        field@ == le32(len as int),
{
    let field: [u8; 4] = [
        (len % 256) as u8,
        (len / 256 % 256) as u8,
        (len / 65536 % 256) as u8,
        (len / 16777216 % 256) as u8,
    ];
    assert(field@ =~= le32(len as int));
    field
}

/// The payload length that a length field records.
pub fn length_value(field: &[u8]) -> (len: u32)
    requires
        field@.len() == 4,
    ensures
        len == le32_value(field@),
{
    field[0] as u32 + 256 * (field[1] as u32) + 65536 * (field[2] as u32) + 16777216 * (
    field[3] as u32)
}

/// The bytes of a length field, each weighing 256 times the one before, add up to the
/// payload's length modulo 2^32.
pub proof fn length_field_holds_the_length(len: u64, field: [u8; 4])
    requires
        call_ensures(length_field, (len,), field),
    ensures
        field@[0] + 0x100 * field@[1] + 0x1_0000 * field@[2] + 0x100_0000 * field@[3] == len as int
            % 0x1_0000_0000,
{
    length_round_trip(len as nat);
}

/// The length that is read from a field is what its bytes add up to, each weighing 256
/// times the one before. Every field can be read.
pub proof fn length_is_what_the_field_holds(field: &[u8], len: u32)
    requires
        field@.len() == 4,
    ensures
        call_requires(length_value, (field,)),
        call_ensures(length_value, (field,), len) ==> len == field@[0] + 0x100 * field@[1]
            + 0x1_0000 * field@[2] + 0x100_0000 * field@[3],
{
}

/// A message lies in the stream as four bytes that add up to its length, least
/// significant first, and then its payload, byte by byte.
pub proof fn frame_is_length_and_payload(data: Seq<u8>)
    ensures
        frame(data).len() == data.len() + 4,
        frame(data)[0] + 0x100 * frame(data)[1] + 0x1_0000 * frame(data)[2] + 0x100_0000 * frame(
            data,
        )[3] == data.len() as int % 0x1_0000_0000,
        forall|i: int| 0 <= i < data.len() ==> #[trigger] frame(data)[4 + i] == data[i],
        frame(data).skip(4) == data,
{
    length_round_trip(data.len());
    assert(frame(data).skip(4) =~= data);
}

} // verus!
