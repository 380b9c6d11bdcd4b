//! What a sink asks of its writer.
use std::io::Write;

use atm_io_utils::MockDuplex;

use packet_stream_codec::event::{
    Async, AsyncSink, CodecError, Error, ErrorKind, Part, SendStep, SinkStep, WriterEvent,
    WriterRequest,
};
use packet_stream_codec::{CodecSink, Metadata};

type Event = WriterEvent<u8>;

fn item(data: &[u8], flags: u8, id: i32) -> Option<(Vec<u8>, Metadata)> {
    Some((data.to_vec(), Metadata { flags, id }))
}

fn is_write<E>(step: &SinkStep<E>) -> bool {
    matches!(step, SinkStep::Request(WriterRequest::Write))
}

/// Lets the writer take at most `limit` bytes.
fn write(sink: &mut CodecSink<Vec<u8>>, limit: usize) -> Event {
    let (writer, bytes) = sink.next_write();
    let n = limit.min(bytes.len());
    writer.extend_from_slice(&bytes[..n]);
    WriterEvent::Wrote(n)
}

/// Sends an item and writes all of it, at most `limit` bytes at a time.
fn send(sink: &mut CodecSink<Vec<u8>>, mut waiting: Option<(Vec<u8>, Metadata)>, limit: usize) {
    let mut event = WriterEvent::Start;
    loop {
        event = match sink.start_send(&mut waiting, event) {
            SendStep::Request(WriterRequest::Write) => write(sink, limit),
            SendStep::Request(WriterRequest::Flush) => WriterEvent::Flushed,
            SendStep::Done(Ok(AsyncSink::Ready)) => return,
            step => panic!("{:?}", step),
        };
    }
}

/// Closes the sink, with at most `limit` bytes at a time.
fn close(sink: &mut CodecSink<Vec<u8>>, limit: usize) {
    let mut event = WriterEvent::Start;
    loop {
        event = match sink.close(event) {
            SinkStep::Request(WriterRequest::Write) => write(sink, limit),
            SinkStep::Request(WriterRequest::Flush) => WriterEvent::Flushed,
            SinkStep::Request(WriterRequest::Shutdown) => WriterEvent::Shutdown(Async::Ready(())),
            SinkStep::Done(Ok(Async::Ready(()))) => return,
            step => panic!("{:?}", step),
        };
    }
}

/// A sink that has begun to write a packet, and has written `n` bytes of it.
fn interrupted_after(data: &[u8], n: usize) -> CodecSink<Vec<u8>> {
    let mut sink = CodecSink::new(Vec::new());
    let mut waiting = item(data, 1, 1);
    let mut event = WriterEvent::Start;
    loop {
        match sink.start_send(&mut waiting, event) {
            SendStep::Request(WriterRequest::Write) => {}
            step => panic!("{:?}", step),
        }
        if sink.writer_mut().len() == n {
            return sink;
        }
        event = write(&mut sink, 1);
    }
}

#[test]
fn a_packet_is_header_and_data() {
    let mut sink = CodecSink::new(Vec::new());
    send(&mut sink, item(&[7, 8, 9], 0b1010, -2), 100);
    assert_eq!(
        sink.into_inner(),
        [0b1010, 0, 0, 0, 3, 0xff, 0xff, 0xff, 0xfe, 7, 8, 9]
    );
}

#[test]
fn the_pieces_make_no_difference_to_the_writer() {
    for limit in 1..12 {
        let mut sink = CodecSink::new(Vec::new());
        send(&mut sink, item(&[7, 8, 9], 2, 0x0102_0304), limit);
        send(&mut sink, item(&[], 9, 5), limit);
        close(&mut sink, limit);
        assert_eq!(
            sink.into_inner(),
            [
                2, 0, 0, 0, 3, 1, 2, 3, 4, 7, 8, 9, 9, 0, 0, 0, 0, 0, 0, 0, 5, 0, 0, 0, 0, 0, 0,
                0, 0, 0
            ]
        );
    }
}

#[test]
fn the_parts_are_written_separately() {
    let mut sink = CodecSink::new(());
    let mut waiting = item(&[7, 8, 9], 2, 0x0102_0304);
    let mut event: Event = WriterEvent::Start;
    let mut parts: Vec<Vec<u8>> = Vec::new();
    while let SendStep::Request(WriterRequest::Write) = sink.start_send(&mut waiting, event) {
        let (_, bytes) = sink.next_write();
        parts.push(bytes.to_vec());
        event = WriterEvent::Wrote(bytes.len());
    }
    assert_eq!(
        parts,
        [vec![2], vec![0, 0, 0, 3], vec![1, 2, 3, 4], vec![7, 8, 9]]
    );
}

#[test]
fn more_than_was_handed_over_completes_the_part() {
    let mut sink = CodecSink::new(());
    let mut waiting = item(&[7], 2, 3);
    sink.start_send::<u8>(&mut waiting, WriterEvent::Start);
    sink.start_send::<u8>(&mut waiting, WriterEvent::Wrote(5));
    assert_eq!(sink.next_write().1, [0, 0, 0, 1]);
    sink.start_send::<u8>(&mut waiting, WriterEvent::Wrote(1_000));
    assert_eq!(sink.next_write().1, [0, 0, 0, 3]);
    sink.start_send::<u8>(&mut waiting, WriterEvent::Wrote(usize::MAX));
    assert_eq!(sink.next_write().1, [7]);
}

#[test]
fn a_mock_writer_gets_the_packet() {
    let mut sink = CodecSink::new(MockDuplex::new());
    let mut waiting = item(&[42], 1, 1);
    let mut event: WriterEvent<u8> = WriterEvent::Start;
    while let SendStep::Request(request) = sink.start_send(&mut waiting, event) {
        event = match request {
            WriterRequest::Write => {
                let (writer, bytes) = sink.next_write();
                WriterEvent::Wrote(writer.write(bytes).unwrap())
            }
            _ => {
                sink.writer_mut().flush().unwrap();
                WriterEvent::Flushed
            }
        };
    }
    let (reads, writes) = sink.into_inner().into_inner();
    assert!(reads.is_empty());
    assert_eq!(writes, [1, 0, 0, 0, 1, 0, 0, 0, 1, 42]);
}

#[test]
fn closing_ends_the_stream() {
    let mut sink = CodecSink::new(Vec::new());
    assert!(!sink.is_closing());
    close(&mut sink, 4);
    assert!(sink.is_closing());
    // closing again shuts the writer down again
    assert!(matches!(
        sink.close::<u8>(WriterEvent::Start),
        SinkStep::Request(WriterRequest::Shutdown)
    ));
    assert_eq!(sink.into_inner(), [0; 9]);
}

#[test]
fn closing_writes_what_was_accepted_first() {
    let mut sink = interrupted_after(&[5, 6], 3);
    close(&mut sink, 100);
    assert_eq!(
        sink.into_inner(),
        [1, 0, 0, 0, 2, 0, 0, 0, 1, 5, 6, 0, 0, 0, 0, 0, 0, 0, 0, 0]
    );
}

#[test]
fn completing_after_close_goes_on_to_end_the_stream() {
    let mut sink = CodecSink::new(());
    assert!(is_write(&sink.close::<u8>(WriterEvent::Start)));
    assert!(is_write(&sink.poll_complete::<u8>(WriterEvent::Start)));
    assert!(is_write(&sink.poll_complete::<u8>(WriterEvent::Wrote(8))));
    assert!(matches!(
        sink.poll_complete::<u8>(WriterEvent::Wrote(1)),
        SinkStep::Request(WriterRequest::Shutdown)
    ));
    assert!(matches!(
        sink.poll_complete::<u8>(WriterEvent::Shutdown(Async::NotReady)),
        SinkStep::Done(Ok(Async::NotReady))
    ));
    assert!(matches!(
        sink.poll_complete::<u8>(WriterEvent::Shutdown(Async::Ready(()))),
        SinkStep::Done(Ok(Async::Ready(())))
    ));
}

#[test]
fn an_idle_sink_is_flushed() {
    let mut sink = CodecSink::new(());
    assert!(matches!(
        sink.poll_complete::<u8>(WriterEvent::Start),
        SinkStep::Request(WriterRequest::Flush)
    ));
    assert!(matches!(
        sink.poll_complete::<u8>(WriterEvent::Flushed),
        SinkStep::Done(Ok(Async::Ready(())))
    ));
}

#[test]
fn an_accepted_item_is_ready_though_the_writer_blocks() {
    let mut sink = CodecSink::new(());
    let mut waiting = item(&[1], 0, 1);
    sink.start_send::<u8>(&mut waiting, WriterEvent::Start);
    assert!(waiting.is_none());
    assert!(matches!(
        sink.start_send(&mut waiting, WriterEvent::Failed(ErrorKind::WouldBlock, 3u8)),
        SendStep::Done(Ok(AsyncSink::Ready))
    ));
}

#[test]
fn an_item_waits_for_the_packet_before_it() {
    let mut sink = interrupted_after(&[5], 0);
    let mut waiting = item(&[6], 2, 2);
    assert!(matches!(
        sink.start_send::<u8>(&mut waiting, WriterEvent::Start),
        SendStep::Request(WriterRequest::Write)
    ));
    assert!(matches!(
        sink.start_send(&mut waiting, WriterEvent::Failed(ErrorKind::WouldBlock, 3u8)),
        SendStep::Done(Ok(AsyncSink::NotReady))
    ));
    assert_eq!(waiting.as_ref().unwrap().0, [6]);
    send(&mut sink, waiting, 100);
    assert_eq!(
        sink.into_inner(),
        [1, 0, 0, 0, 1, 0, 0, 0, 1, 5, 2, 0, 0, 0, 1, 0, 0, 0, 2, 6]
    );
}

#[test]
fn an_item_waits_for_the_flush() {
    let mut sink = interrupted_after(&[], 8);
    let mut waiting = item(&[6], 2, 2);
    sink.start_send::<u8>(&mut waiting, WriterEvent::Start);
    assert!(matches!(
        sink.start_send::<u8>(&mut waiting, WriterEvent::Wrote(1)),
        SendStep::Request(WriterRequest::Flush)
    ));
    assert!(waiting.is_some());
    assert!(matches!(
        sink.start_send::<u8>(&mut waiting, WriterEvent::Flushed),
        SendStep::Request(WriterRequest::Write)
    ));
    assert!(waiting.is_none());
    assert_eq!(sink.next_write().1, [2]);
}

#[test]
fn interruptions_are_tried_again() {
    let mut sink = interrupted_after(&[5, 6, 7], 10);
    assert!(is_write(&sink.poll_complete::<u8>(WriterEvent::Start)));
    assert!(is_write(&sink.poll_complete(WriterEvent::Failed(
        ErrorKind::Interrupted,
        3u8
    ))));
    assert_eq!(sink.next_write().1, [6, 7]);
}

#[test]
fn blocking_ends_the_call() {
    let mut sink = interrupted_after(&[5, 6, 7], 10);
    assert!(is_write(&sink.close::<u8>(WriterEvent::Start)));
    assert!(matches!(
        sink.close(WriterEvent::Failed(ErrorKind::WouldBlock, 3u8)),
        SinkStep::Done(Ok(Async::NotReady))
    ));
    assert!(!sink.is_closing());
    assert_eq!(sink.next_write().1, [6, 7]);
}

#[test]
fn errors_of_the_writer_are_handed_on() {
    let mut sink = interrupted_after(&[5, 6, 7], 2);
    assert!(matches!(
        sink.poll_complete(WriterEvent::Failed(ErrorKind::Other, 3u8)),
        SinkStep::Done(Err(Error::Io(3)))
    ));
    let mut waiting = item(&[6], 2, 2);
    sink.start_send::<u8>(&mut waiting, WriterEvent::Start);
    assert!(matches!(
        sink.start_send(&mut waiting, WriterEvent::Failed(ErrorKind::UnexpectedEof, 4u8)),
        SendStep::Done(Err(Error::Io(4)))
    ));
    assert!(waiting.is_none());
}

#[test]
fn an_interrupted_shutdown_is_an_error() {
    let mut sink = CodecSink::new(Vec::new());
    close(&mut sink, 9);
    assert!(matches!(
        sink.close(WriterEvent::Failed(ErrorKind::Interrupted, 3u8)),
        SinkStep::Done(Err(Error::Io(3)))
    ));
    assert!(matches!(
        sink.close(WriterEvent::Failed(ErrorKind::WouldBlock, 4u8)),
        SinkStep::Done(Err(Error::Io(4)))
    ));
}

#[test]
fn a_writer_that_takes_nothing_is_an_error() {
    let cases = [
        (0, Part::Flags),
        (1, Part::Length),
        (4, Part::Length),
        (5, Part::Id),
        (8, Part::Id),
        (9, Part::Data),
        (10, Part::Data),
    ];
    for (n, part) in cases.iter() {
        let mut sink = interrupted_after(&[5, 6, 7], *n);
        match sink.poll_complete::<u8>(WriterEvent::Wrote(0)) {
            SinkStep::Done(Err(Error::Codec(error))) => {
                assert_eq!(error, CodecError::WriteZero(*part))
            }
            step => panic!("{:?}", step),
        }
    }
    let mut sink = CodecSink::new(());
    sink.close::<u8>(WriterEvent::Start);
    assert!(matches!(
        sink.close::<u8>(WriterEvent::Wrote(0)),
        SinkStep::Done(Err(Error::Codec(CodecError::WriteZero(Part::EndOfStream))))
    ));
}

#[test]
fn an_item_can_be_too_large() {
    let len = u32::MAX as usize + 1;
    let mut room: Vec<u8> = Vec::new();
    if room.try_reserve_exact(len).is_err() {
        // there is no such item on this machine
        return;
    }
    drop(room);
    let mut sink = CodecSink::new(Vec::new());
    let mut waiting = Some((vec![0; len], Metadata { flags: 0, id: 1 }));
    assert!(matches!(
        sink.start_send::<u8>(&mut waiting, WriterEvent::Start),
        SendStep::Done(Err(Error::Codec(CodecError::ItemTooLarge)))
    ));
    assert!(waiting.is_none());
    // the sink can still be used
    send(&mut sink, item(&[1], 0, 1), 100);
    assert_eq!(sink.into_inner(), [0, 0, 0, 0, 1, 0, 0, 0, 1, 1]);
}
