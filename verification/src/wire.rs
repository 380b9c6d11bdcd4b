//! The wire format: how a packet is laid out in bytes.
//!
//! A packet is a header of nine bytes, followed by its data. The header holds
//! the flags (one byte), the length of the data (four bytes) and the id (four
//! bytes), the numbers with the most significant byte first. A header of nine
//! zeros ends the stream.
use vstd::prelude::*;

use crate::event::Part;
use crate::metadata::{Metadata, PacketId, TYPE_UNUSED};

verus! {

/// The header that ends a stream.
pub const ZEROS: [u8; 9] = [0u8, 0u8, 0u8, 0u8, 0u8, 0u8, 0u8, 0u8, 0u8];

/// The four bytes of a number below two to the power of 32, most significant first.
pub open spec fn be_bytes(n: int) -> Seq<u8> {
    seq![
        (n / 0x100_0000 % 0x100) as u8,
        (n / 0x1_0000 % 0x100) as u8,
        (n / 0x100 % 0x100) as u8,
        (n % 0x100) as u8,
    ]
}

/// The number that four bytes stand for, most significant first.
pub open spec fn be_value(s: Seq<u8>) -> int {
    s[0] * 0x100_0000 + s[1] * 0x1_0000 + s[2] * 0x100 + s[3]
}

/// The two's complement of an id: its remainder modulo two to the power of 32.
pub open spec fn id_code(id: PacketId) -> int {
    id as int % 0x1_0000_0000
}

/// The id whose two's complement is `code`.
pub open spec fn id_of_code(code: int) -> PacketId {
    if code < 0x8000_0000 {
        code as i32
    } else {
        (code - 0x1_0000_0000) as i32
    }
}

/// The header of a packet with `len` bytes of data.
pub open spec fn header(metadata: Metadata, len: int) -> Seq<u8> {
    seq![metadata.flags] + be_bytes(len) + be_bytes(id_code(metadata.id))
}

/// The bytes of a packet.
pub open spec fn encode(data: Seq<u8>, metadata: Metadata) -> Seq<u8> {
    header(metadata, data.len() as int) + data
}

/// The header that ends a stream.
pub open spec fn end_header() -> Seq<u8> {
    Seq::new(9, |i: int| 0u8)
}

/// The length of the data, as the header at the front of `s` gives it.
pub open spec fn length_of(s: Seq<u8>) -> int {
    be_value(s.subrange(1, 5))
}

/// The metadata that the header at the front of `s` gives.
pub open spec fn metadata_of(s: Seq<u8>) -> Metadata {
    Metadata { flags: s[0], id: id_of_code(be_value(s.subrange(5, 9))) }
}

/// The part of a packet that the byte at position `pos` belongs to.
pub open spec fn part_at(pos: int) -> Part {
    if pos < 1 {
        Part::Flags
    } else if pos < 5 {
        Part::Length
    } else if pos < 9 {
        Part::Id
    } else {
        Part::Data
    }
}

/// Where that part ends, in a packet of `len` bytes.
pub open spec fn part_end(pos: int, len: int) -> int {
    if pos < 1 {
        1
    } else if pos < 5 {
        5
    } else if pos < 9 {
        9
    } else {
        len
    }
}

/// The smaller of two numbers.
pub open spec fn least(a: int, b: int) -> int {
    if a < b {
        a
    } else {
        b
    }
}

/// Whether a packet that is sent can be told from the end of the stream and
/// from a malformed packet, and its length fits the header.
pub open spec fn transmissible(data: Seq<u8>, metadata: Metadata) -> bool {
    &&& data.len() <= u32::MAX
    &&& metadata.type_value() != TYPE_UNUSED
    &&& header(metadata, data.len() as int) != end_header()
}

/// Taking the last byte off a number leaves its other bytes.
proof fn lemma_last_byte(q: int, r: int)
    requires
        0 <= q,
        0 <= r < 0x100,
    ensures
        (q * 0x100 + r) / 0x100 == q,
        (q * 0x100 + r) % 0x100 == r,
        (q * 0x100 + r) / 0x1_0000 == q / 0x100,
        (q * 0x100 + r) / 0x100_0000 == q / 0x1_0000,
{
}

/// Four bytes determine a number and a number its four bytes.
pub proof fn law_be_bytes(n: int, s: Seq<u8>)
    requires
        0 <= n < 0x1_0000_0000,
        s.len() == 4,
    ensures
        be_bytes(n).len() == 4,
        be_value(be_bytes(n)) == n,
        0 <= be_value(s) < 0x1_0000_0000,
        be_bytes(be_value(s)) == s,
{
    assert(be_value(be_bytes(n)) == n) by {
        let q = n / 0x100;
        lemma_last_byte(q, n % 0x100);
        lemma_last_byte(q / 0x100, q % 0x100);
        lemma_last_byte(q / 0x1_0000, q / 0x100 % 0x100);
    }
    assert(be_bytes(be_value(s)) =~= s) by {
        let (s0, s1, s2, s3) = (s[0] as int, s[1] as int, s[2] as int, s[3] as int);
        let q = s0 * 0x1_0000 + s1 * 0x100 + s2;
        lemma_last_byte(q, s3);
        lemma_last_byte(s0 * 0x100 + s1, s2);
        lemma_last_byte(s0, s1);
    }
}

/// An id is determined by its two's complement, and every number of 32 bits is
/// the two's complement of an id.
pub proof fn law_id_code(id: PacketId, code: int)
    requires
        0 <= code < 0x1_0000_0000,
    ensures
        0 <= id_code(id) < 0x1_0000_0000,
        id_of_code(id_code(id)) == id,
        id_code(id_of_code(code)) == code,
{
}

/// What a header says is what it was made of: length and metadata can be read
/// back from its bytes, whatever follows them.
pub proof fn law_header_read_back(metadata: Metadata, len: int, rest: Seq<u8>)
    requires
        0 <= len < 0x1_0000_0000,
    ensures
        header(metadata, len).len() == 9,
        (header(metadata, len) + rest).take(9) == header(metadata, len),
        (header(metadata, len) + rest).skip(9) == rest,
        length_of(header(metadata, len) + rest) == len,
        metadata_of(header(metadata, len) + rest) == metadata,
{
    let s = header(metadata, len) + rest;
    let code = id_code(metadata.id);
    law_id_code(metadata.id, code);
    law_be_bytes(len, be_bytes(len));
    law_be_bytes(code, be_bytes(code));
    assert(s.subrange(1, 5) =~= be_bytes(len));
    assert(s.subrange(5, 9) =~= be_bytes(code));
    assert(s.take(9) =~= header(metadata, len));
    assert(s.skip(9) =~= rest);
}

/// What a packet says is what it was made of: length, metadata and data can be
/// read back from its bytes.
pub proof fn law_encode_read_back(data: Seq<u8>, metadata: Metadata)
    requires
        data.len() <= u32::MAX,
    ensures
        encode(data, metadata).len() == 9 + data.len(),
        length_of(encode(data, metadata)) == data.len(),
        metadata_of(encode(data, metadata)) == metadata,
        encode(data, metadata).skip(9) == data,
{
    law_header_read_back(metadata, data.len() as int, data);
}

/// Bytes that hold a whole packet are the encoding of what they say.
pub proof fn law_read_back_encode(s: Seq<u8>)
    requires
        s.len() >= 9,
        s.len() == 9 + length_of(s),
    ensures
        encode(s.skip(9), metadata_of(s)) == s,
{
    let len_bytes = s.subrange(1, 5);
    let id_bytes = s.subrange(5, 9);
    law_be_bytes(be_value(len_bytes), len_bytes);
    law_be_bytes(be_value(id_bytes), id_bytes);
    law_id_code(metadata_of(s).id, be_value(id_bytes));
    assert(encode(s.skip(9), metadata_of(s)) =~= s);
}

/// Only the packet without data whose flags and id are zero looks like the end
/// of the stream.
pub proof fn law_end_header(metadata: Metadata, len: int)
    requires
        0 <= len < 0x1_0000_0000,
    ensures
        header(metadata, len) == end_header() <==> len == 0 && metadata.flags == 0 && metadata.id
            == 0,
{
    let h = header(metadata, len);
    let code = id_code(metadata.id);
    law_id_code(metadata.id, code);
    law_be_bytes(len, be_bytes(len));
    law_be_bytes(code, be_bytes(code));
    assert(h.subrange(1, 5) =~= be_bytes(len));
    assert(h.subrange(5, 9) =~= be_bytes(code));
    if len == 0 && metadata.flags == 0 && metadata.id == 0 {
        assert(h =~= end_header());
    }
    if h == end_header() {
        assert(h[0] == 0 && h[1] == 0 && h[2] == 0 && h[3] == 0 && h[4] == 0);
        assert(h[5] == 0 && h[6] == 0 && h[7] == 0 && h[8] == 0);
    }
}

/// Splits a number into its bytes, most significant first.
pub fn u32_to_be_bytes(n: u32) -> (r: [u8; 4])
    ensures
        r@ == be_bytes(n as int),
{
    let r: [u8; 4] = [
        (n / 0x100_0000) as u8,
        (n / 0x1_0000 % 0x100) as u8,
        (n / 0x100 % 0x100) as u8,
        (n % 0x100) as u8,
    ];
    assert(r@ =~= be_bytes(n as int));
    r
}

/// Puts a number together from its bytes, most significant first.
pub fn u32_from_be_bytes(bytes: [u8; 4]) -> (r: u32)
    ensures
        r == be_value(bytes@),
{
    bytes[0] as u32 * 0x100_0000 + bytes[1] as u32 * 0x1_0000 + bytes[2] as u32 * 0x100
        + bytes[3] as u32
}

/// Splits an id into the bytes of its two's complement, most significant first.
pub fn id_to_be_bytes(id: PacketId) -> (r: [u8; 4])
    ensures
        r@ == be_bytes(id_code(id)),
{
    let code: u32 = if id >= 0 {
        id as u32
    } else {
        (id as i64 + 0x1_0000_0000) as u32
    };
    u32_to_be_bytes(code)
}

/// Puts an id together from the bytes of its two's complement, most significant
/// first.
pub fn id_from_be_bytes(bytes: [u8; 4]) -> (r: PacketId)
    ensures
        r == id_of_code(be_value(bytes@)),
{
    let code: u32 = u32_from_be_bytes(bytes);
    if code < 0x8000_0000 {
        code as i32
    } else {
        (code as i64 - 0x1_0000_0000) as i32
    }
}

} // verus!
