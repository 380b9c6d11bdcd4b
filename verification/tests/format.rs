//! Metadata and the layout of packets.
use packet_stream_codec::event::{CodecError, ErrorKind, Part};
use packet_stream_codec::wire::{
    id_from_be_bytes, id_to_be_bytes, u32_from_be_bytes, u32_to_be_bytes,
};
use packet_stream_codec::{
    Metadata, END, STREAM, TYPE, TYPE_BINARY, TYPE_JSON, TYPE_STRING,
};

fn with_flags(flags: u8) -> Metadata {
    Metadata { flags, id: 0 }
}

#[test]
fn flag_masks() {
    assert_eq!(STREAM, 8);
    assert_eq!(END, 4);
    assert_eq!(TYPE, 3);
    assert_eq!((TYPE_BINARY, TYPE_STRING, TYPE_JSON), (0, 1, 2));
}

#[test]
fn stream_and_end_flags() {
    assert!(with_flags(0b0000_1000).is_stream_packet());
    assert!(!with_flags(0b1111_0111).is_stream_packet());
    assert!(with_flags(0b0000_0100).is_end_packet());
    assert!(!with_flags(0b1111_1011).is_end_packet());
}

#[test]
fn type_flags() {
    assert!(with_flags(0b1111_1100).is_buffer_packet());
    assert!(with_flags(0b1111_1101).is_string_packet());
    assert!(with_flags(0b1111_1110).is_json_packet());
    assert!(with_flags(0b1111_1111).is_unused_packet());
    assert!(!with_flags(2).is_string_packet());
}

#[test]
fn exactly_one_type() {
    for flags in 0..=255u8 {
        let metadata = with_flags(flags);
        let types = [
            metadata.is_buffer_packet(),
            metadata.is_string_packet(),
            metadata.is_json_packet(),
            metadata.is_unused_packet(),
        ];
        assert_eq!(types.iter().filter(|is| **is).count(), 1);
    }
}

#[test]
fn metadata_in_network_byte_order() {
    let be = Metadata {
        flags: 10,
        id: 0x0102_0304,
    }
    .to_be();
    assert_eq!(be.flags, 10);
    assert_eq!(be.id, [1, 2, 3, 4]);
}

#[test]
fn numbers_to_bytes_and_back() {
    assert_eq!(u32_to_be_bytes(0xfedc_ba98), [0xfe, 0xdc, 0xba, 0x98]);
    assert_eq!(u32_from_be_bytes([0xfe, 0xdc, 0xba, 0x98]), 0xfedc_ba98);
    for n in [0, 1, 255, 256, 65_535, 65_536, 0x7fff_ffff, 0x8000_0000, u32::MAX] {
        assert_eq!(u32_to_be_bytes(n), n.to_be_bytes());
        assert_eq!(u32_from_be_bytes(n.to_be_bytes()), n);
    }
}

#[test]
fn ids_to_bytes_and_back() {
    assert_eq!(id_to_be_bytes(-2), [0xff, 0xff, 0xff, 0xfe]);
    assert_eq!(id_from_be_bytes([0xff, 0xff, 0xff, 0xfe]), -2);
    for id in [0, 1, -1, 1_000_000, -1_000_000, i32::MAX, i32::MIN] {
        assert_eq!(id_to_be_bytes(id), id.to_be_bytes());
        assert_eq!(id_from_be_bytes(id.to_be_bytes()), id);
    }
}

#[test]
fn error_kinds_and_messages() {
    let cases = [
        (
            CodecError::ItemTooLarge,
            ErrorKind::InvalidInput,
            "item too large for packet-stream-codec",
        ),
        (
            CodecError::WriteZero(Part::Flags),
            ErrorKind::WriteZero,
            "failed to write packet flags",
        ),
        (
            CodecError::WriteZero(Part::Length),
            ErrorKind::WriteZero,
            "failed to write packet length",
        ),
        (
            CodecError::WriteZero(Part::Id),
            ErrorKind::WriteZero,
            "failed to write packet id",
        ),
        (
            CodecError::WriteZero(Part::Data),
            ErrorKind::WriteZero,
            "failed to write packet data",
        ),
        (
            CodecError::WriteZero(Part::EndOfStream),
            ErrorKind::WriteZero,
            "failed to write end-of-stream header",
        ),
        (
            CodecError::UnexpectedEof(Part::Flags),
            ErrorKind::UnexpectedEof,
            "failed to read packet flags",
        ),
        (
            CodecError::UnexpectedEof(Part::Length),
            ErrorKind::UnexpectedEof,
            "failed to read packet length",
        ),
        (
            CodecError::UnexpectedEof(Part::Id),
            ErrorKind::UnexpectedEof,
            "failed to read packet id",
        ),
        (
            CodecError::UnexpectedEof(Part::Data),
            ErrorKind::UnexpectedEof,
            "failed to read whole packet content",
        ),
        (
            CodecError::InvalidType,
            ErrorKind::InvalidData,
            "read packet with invalid type flag",
        ),
    ];
    for (error, kind, message) in cases.iter() {
        assert_eq!(error.kind(), *kind);
        assert_eq!(error.message(), *message);
    }
}
