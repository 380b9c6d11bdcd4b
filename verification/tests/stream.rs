//! What a stream makes of what it reads.
use packet_stream_codec::event::{
    Async, CodecError, Error, ErrorKind, Part, ReaderEvent, StreamStep,
};
use packet_stream_codec::CodecStream;

/// A packet with flags 9, id -2 and three bytes of data.
const PACKET: [u8; 12] = [9, 0, 0, 0, 3, 0xff, 0xff, 0xff, 0xfe, 7, 8, 9];

/// Reads the bytes, at most `limit` at a time, and tells how the call ended and
/// how many bytes it took.
fn poll(
    stream: &mut CodecStream<()>,
    bytes: &[u8],
    limit: usize,
) -> (StreamStep<u8>, usize) {
    let mut taken = 0;
    let mut event = ReaderEvent::Start;
    loop {
        match stream.poll(event) {
            StreamStep::Read(n) if taken < bytes.len() => {
                let n = n.min(limit).min(bytes.len() - taken);
                event = ReaderEvent::Read(&bytes[taken..taken + n]);
                taken += n;
            }
            step => return (step, taken),
        }
    }
}

/// A stream that has read these bytes and asks for more.
fn after(bytes: &[u8]) -> CodecStream<()> {
    let mut stream = CodecStream::new(());
    match poll(&mut stream, bytes, 100) {
        (StreamStep::Read(_), n) => assert_eq!(n, bytes.len()),
        (step, _) => panic!("{:?}", step),
    }
    stream
}

#[test]
fn a_packet_yields_an_item() {
    for limit in 1..13 {
        let mut stream = CodecStream::new(());
        match poll(&mut stream, &PACKET, limit) {
            (StreamStep::Done(Ok(Async::Ready(Some((data, metadata))))), 12) => {
                assert_eq!(&data[..], [7, 8, 9]);
                assert_eq!(metadata.flags, 9);
                assert_eq!(metadata.id, -2);
                assert!(!metadata.is_unused_packet());
            }
            (step, _) => panic!("{:?}", step),
        }
        // and the next one follows
        match poll(&mut stream, &[2, 0, 0, 0, 1, 1, 2, 3, 4, 5], limit) {
            (StreamStep::Done(Ok(Async::Ready(Some((data, metadata))))), 10) => {
                assert_eq!(&data[..], [5]);
                assert_eq!(metadata.flags, 2);
                assert_eq!(metadata.id, 0x0102_0304);
            }
            (step, _) => panic!("{:?}", step),
        }
    }
}

#[test]
fn no_more_is_asked_for_than_a_part_lacks() {
    let cases = [
        (0, 1),
        (1, 4),
        (2, 3),
        (4, 1),
        (5, 4),
        (8, 1),
        (9, 3),
        (10, 2),
        (11, 1),
    ];
    for (n, missing) in cases.iter() {
        let mut stream = after(&PACKET[..*n]);
        assert!(matches!(
            stream.poll::<u8>(ReaderEvent::Start),
            StreamStep::Read(m) if m == *missing
        ));
    }
}

#[test]
fn more_than_was_asked_for_is_not_taken_notice_of() {
    let mut stream = after(&PACKET[..7]);
    assert!(matches!(
        stream.poll::<u8>(ReaderEvent::Read(&[0xff, 0xfe, 1, 1, 1])),
        StreamStep::Read(3)
    ));
    match stream.poll::<u8>(ReaderEvent::Read(&[7, 8, 9, 10])) {
        StreamStep::Done(Ok(Async::Ready(Some((data, metadata))))) => {
            assert_eq!(&data[..], [7, 8, 9]);
            assert_eq!(metadata.id, -2);
        }
        step => panic!("{:?}", step),
    }
}

#[test]
fn a_packet_may_be_empty() {
    let mut stream = CodecStream::new(());
    match poll(&mut stream, &[0, 0, 0, 0, 0, 0, 0, 0, 1], 100) {
        (StreamStep::Done(Ok(Async::Ready(Some((data, metadata))))), 9) => {
            assert!(data.is_empty());
            assert_eq!((metadata.flags, metadata.id), (0, 1));
        }
        (step, _) => panic!("{:?}", step),
    }
}

#[test]
fn zeros_end_the_stream_for_good() {
    let mut stream = CodecStream::new(());
    assert!(matches!(
        poll(&mut stream, &[0; 9], 2),
        (StreamStep::Done(Ok(Async::Ready(None))), 9)
    ));
    for _ in 0..3 {
        assert!(matches!(
            poll(&mut stream, &PACKET, 100),
            (StreamStep::Done(Ok(Async::Ready(None))), 0)
        ));
    }
    assert!(!stream.has_failed());
}

#[test]
fn the_unused_type_is_an_error() {
    let mut stream = CodecStream::new(());
    match poll(&mut stream, &[0b0000_0111], 1) {
        (StreamStep::Done(Err(Error::Codec(error))), 1) => {
            assert_eq!(error, CodecError::InvalidType)
        }
        (step, _) => panic!("{:?}", step),
    }
    // the next byte is taken for the flags of a packet
    assert!(matches!(
        poll(&mut stream, &PACKET, 100),
        (StreamStep::Done(Ok(Async::Ready(Some(_)))), 12)
    ));
}

#[test]
fn the_end_of_the_reader_is_an_error() {
    let cases = [
        (0, Part::Flags),
        (1, Part::Length),
        (4, Part::Length),
        (5, Part::Id),
        (8, Part::Id),
        (9, Part::Data),
        (11, Part::Data),
    ];
    for (n, part) in cases.iter() {
        let mut stream = after(&PACKET[..*n]);
        match stream.poll::<u8>(ReaderEvent::Read(&[])) {
            StreamStep::Done(Err(Error::Codec(error))) => {
                assert_eq!(error, CodecError::UnexpectedEof(*part))
            }
            step => panic!("{:?}", step),
        }
        assert_eq!(stream.has_failed(), *part == Part::Data);
    }
}

#[test]
fn errors_of_the_reader_are_handed_on() {
    for n in 0..12 {
        let mut stream = after(&PACKET[..n]);
        assert!(matches!(
            stream.poll(ReaderEvent::Failed(ErrorKind::Other, 3u8)),
            StreamStep::Done(Err(Error::Io(3)))
        ));
        // the header can be read on, the data is lost
        assert_eq!(stream.has_failed(), n >= 9);
        if n < 9 {
            assert!(matches!(
                poll(&mut stream, &PACKET[n..], 100),
                (StreamStep::Done(Ok(Async::Ready(Some(_)))), m) if m == 12 - n
            ));
        }
    }
}

#[test]
fn a_reader_may_block_and_be_interrupted() {
    for n in 0..12 {
        let mut stream = after(&PACKET[..n]);
        let before = match stream.poll::<u8>(ReaderEvent::Start) {
            StreamStep::Read(missing) => missing,
            step => panic!("{:?}", step),
        };
        assert!(matches!(
            stream.poll(ReaderEvent::Failed(ErrorKind::Interrupted, 3u8)),
            StreamStep::Read(missing) if missing == before
        ));
        assert!(matches!(
            stream.poll(ReaderEvent::Failed(ErrorKind::WouldBlock, 3u8)),
            StreamStep::Done(Ok(Async::NotReady))
        ));
        match poll(&mut stream, &PACKET[n..], 100) {
            (StreamStep::Done(Ok(Async::Ready(Some((data, _))))), _) => {
                assert_eq!(&data[..], [7, 8, 9])
            }
            (step, _) => panic!("{:?}", step),
        }
    }
}

#[test]
fn the_reader_comes_back() {
    let mut stream = CodecStream::new(vec![1, 2]);
    stream.reader_mut().push(3);
    assert_eq!(stream.into_inner(), [1, 2, 3]);
}
