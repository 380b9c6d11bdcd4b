//! The metadata that accompanies the data of a packet.
use vstd::prelude::*;

use crate::wire;

verus! {

/// The ids used by packet-stream packets
pub type PacketId = i32;

///  Bitmask for the stream flag.
pub const STREAM: u8 = 0b0000_1000;

///  Bitmask for the end flag.
pub const END: u8 = 0b0000_0100;

///  Bitmask for the type flags.
pub const TYPE: u8 = 0b0000_0011;

/// Value of the binary type.
pub const TYPE_BINARY: u8 = 0;

/// Value of the string type.
pub const TYPE_STRING: u8 = 1;

/// Value of the json type.
pub const TYPE_JSON: u8 = 2;

/// The unused fourth possible value.
pub const TYPE_UNUSED: u8 = 3;

/// The metadata of a packet.
#[derive(Debug, Copy, Clone)]
pub struct Metadata {
    /// Flags indicate the type of the data in the packet, whether the packet is
    /// a request, and whether it signals an end/error.
    pub flags: u8,
    /// The id of the packet.
    pub id: PacketId,
}

/// A `Metadata` in the form in which it travels.
#[derive(Debug, Copy, Clone)]
pub struct BeMetadata {
    /// The flags: a single byte has no byte order.
    pub flags: u8,
    /// The id in two's complement, most significant byte first.
    pub id: [u8; 4],
}

impl Metadata {
    /// The number in the two lowest bits of the flags, which tells the type of the data.
    pub open spec fn type_value(self) -> int {
        self.flags as int % 4
    }

    /// Whether the fourth lowest bit of the flags is set.
    pub open spec fn stream_bit(self) -> bool {
        self.flags as int / 8 % 2 == 1
    }

    /// Whether the third lowest bit of the flags is set.
    pub open spec fn end_bit(self) -> bool {
        self.flags as int / 4 % 2 == 1
    }

    /// Returns true if the stream flag of the packet is set.
    pub fn is_stream_packet(&self) -> (r: bool)
        ensures
            r == self.stream_bit(),
    {
        let flags: u8 = self.flags;
        assert((flags & 0b0000_1000 != 0) == (flags / 8 % 2 == 1)) by (bit_vector);
        self.flags & STREAM != 0
    }

    /// Returns true if the end/error flag of the packet is set.
    pub fn is_end_packet(&self) -> (r: bool)
        ensures
            r == self.end_bit(),
    {
        let flags: u8 = self.flags;
        assert((flags & 0b0000_0100 != 0) == (flags / 4 % 2 == 1)) by (bit_vector);
        self.flags & END != 0
    }

    /// Returns true if the type flags signal a buffer.
    pub fn is_buffer_packet(&self) -> (r: bool)
        ensures
            r == (self.type_value() == TYPE_BINARY),
    {
        proof {
            lemma_type_mask(self.flags);
        }
        self.flags & TYPE == TYPE_BINARY
    }

    /// Returns true if the type flags signal a string.
    pub fn is_string_packet(&self) -> (r: bool)
        ensures
            r == (self.type_value() == TYPE_STRING),
    {
        proof {
            lemma_type_mask(self.flags);
        }
        self.flags & TYPE == TYPE_STRING
    }

    /// Returns true if the type flags signal json.
    pub fn is_json_packet(&self) -> (r: bool)
        ensures
            r == (self.type_value() == TYPE_JSON),
    {
        proof {
            lemma_type_mask(self.flags);
        }
        self.flags & TYPE == TYPE_JSON
    }

    /// Returns true if the type flags signal the unused type.
    ///
    /// A `CodecStream` returns an error if it encounters a packet with this type,
    /// so this returns false for all `Metadata`s yielded from a `CodecStream`.
    pub fn is_unused_packet(&self) -> (r: bool)
        ensures
            r == (self.type_value() == TYPE_UNUSED),
    {
        proof {
            lemma_type_mask(self.flags);
        }
        self.flags & TYPE == TYPE_UNUSED
    }

    /// The metadata in network byte order.
    pub fn to_be(self) -> (r: BeMetadata)
        ensures
            r.flags == self.flags,
            r.id@ == wire::be_bytes(wire::id_code(self.id)),
    {
        BeMetadata { flags: self.flags, id: wire::id_to_be_bytes(self.id) }
    }
}

/// Masking with `TYPE` leaves the remainder modulo four.
proof fn lemma_type_mask(flags: u8)
    ensures
        flags & TYPE == flags % 4,
{
    assert(flags & 0b0000_0011 == flags % 4) by (bit_vector);
}

/// Every packet has exactly one of the four types: binary, string, json or the
/// unused one.
pub proof fn law_exactly_one_type(metadata: Metadata)
    ensures
        ({
            let binary = metadata.type_value() == TYPE_BINARY;
            let string = metadata.type_value() == TYPE_STRING;
            let json = metadata.type_value() == TYPE_JSON;
            let unused = metadata.type_value() == TYPE_UNUSED;
            &&& binary || string || json || unused
            &&& !(binary && string) && !(binary && json) && !(binary && unused)
            &&& !(string && json) && !(string && unused) && !(json && unused)
        }),
{
}

} // verus!
