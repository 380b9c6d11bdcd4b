//! Items that are sent through a sink arrive at a stream, over a bounded buffer
//! and through a reader and a writer that do their work in pieces, block and are
//! interrupted.
use std::cell::RefCell;
use std::collections::VecDeque;
use std::io;
use std::io::{Read, Write};
use std::rc::Rc;

use futures::stream::iter_ok;
use futures::task::{current, Task};
use futures::{Future, Poll, Sink, StartSend, Stream};
use partial_io::quickcheck_types::GenInterruptedWouldBlock;
use partial_io::{PartialAsyncRead, PartialAsyncWrite, PartialWithErrors};
use quickcheck::{QuickCheck, StdGen};
use tokio_io::{AsyncRead, AsyncWrite};

use packet_stream_codec::event::{
    Async, AsyncSink, Error, ErrorKind, ReaderEvent, SendStep, SinkStep, StreamStep, WriterEvent,
    WriterRequest,
};
use packet_stream_codec::{CodecSink, CodecStream, Metadata, PacketId};

struct RingBuffer {
    data: VecDeque<u8>,
    capacity: usize,
    task: Option<Task>,
}

impl RingBuffer {
    fn park(&mut self) -> io::Error {
        self.task = Some(current());
        io::Error::new(io::ErrorKind::WouldBlock, "")
    }

    fn unpark(&mut self) {
        if let Some(task) = self.task.take() {
            task.notify();
        }
    }
}

fn ring_buffer(capacity: usize) -> (Writer, Reader) {
    let buffer = Rc::new(RefCell::new(RingBuffer {
        data: VecDeque::new(),
        capacity,
        task: None,
    }));
    (Writer(Rc::clone(&buffer)), Reader(buffer))
}

struct Writer(Rc<RefCell<RingBuffer>>);

impl Drop for Writer {
    fn drop(&mut self) {
        self.0.borrow_mut().unpark();
    }
}

impl Write for Writer {
    fn write(&mut self, buf: &[u8]) -> io::Result<usize> {
        let mut buffer = self.0.borrow_mut();
        if buf.is_empty() {
            return Ok(0);
        }
        let room = buffer.capacity - buffer.data.len();
        if room == 0 {
            return if Rc::strong_count(&self.0) == 1 {
                Ok(0)
            } else {
                Err(buffer.park())
            };
        }
        let n = room.min(buf.len());
        buffer.data.extend(&buf[..n]);
        buffer.unpark();
        Ok(n)
    }

    fn flush(&mut self) -> io::Result<()> {
        Ok(())
    }
}

impl AsyncWrite for Writer {
    fn shutdown(&mut self) -> Poll<(), io::Error> {
        Ok(futures::Async::Ready(()))
    }
}

struct Reader(Rc<RefCell<RingBuffer>>);

impl Drop for Reader {
    fn drop(&mut self) {
        self.0.borrow_mut().unpark();
    }
}

impl Read for Reader {
    fn read(&mut self, buf: &mut [u8]) -> io::Result<usize> {
        let mut buffer = self.0.borrow_mut();
        if buf.is_empty() {
            return Ok(0);
        }
        if buffer.data.is_empty() {
            return if Rc::strong_count(&self.0) == 1 {
                Ok(0)
            } else {
                Err(buffer.park())
            };
        }
        let n = buf.len().min(buffer.data.len());
        for byte in buf[..n].iter_mut() {
            *byte = buffer.data.pop_front().unwrap();
        }
        buffer.unpark();
        Ok(n)
    }
}

impl AsyncRead for Reader {}

fn kind(error: &io::Error) -> ErrorKind {
    match error.kind() {
        io::ErrorKind::WouldBlock => ErrorKind::WouldBlock,
        io::ErrorKind::Interrupted => ErrorKind::Interrupted,
        _ => ErrorKind::Other,
    }
}

fn io_error(error: Error<io::Error>) -> io::Error {
    match error {
        Error::Codec(error) => io::Error::new(io::ErrorKind::Other, error.message()),
        Error::Io(error) => error,
    }
}

fn poll_of<T>(answer: Async<T>) -> futures::Async<T> {
    match answer {
        Async::Ready(value) => futures::Async::Ready(value),
        Async::NotReady => futures::Async::NotReady,
    }
}

struct Sender<W>(CodecSink<W>);

impl<W: AsyncWrite> Sender<W> {
    fn perform(&mut self, request: WriterRequest) -> WriterEvent<io::Error> {
        let result = match request {
            WriterRequest::Write => {
                let (writer, bytes) = self.0.next_write();
                writer.write(bytes).map(WriterEvent::Wrote)
            }
            WriterRequest::Flush => self.0.writer_mut().flush().map(|_| WriterEvent::Flushed),
            WriterRequest::Shutdown => match self.0.writer_mut().shutdown() {
                Ok(futures::Async::Ready(())) => Ok(WriterEvent::Shutdown(Async::Ready(()))),
                Ok(futures::Async::NotReady) => Ok(WriterEvent::Shutdown(Async::NotReady)),
                Err(error) => Err(error),
            },
        };
        match result {
            Ok(event) => event,
            Err(error) => WriterEvent::Failed(kind(&error), error),
        }
    }
}

impl<W: AsyncWrite> Sink for Sender<W> {
    type SinkItem = (Vec<u8>, Metadata);
    type SinkError = io::Error;

    fn start_send(&mut self, item: Self::SinkItem) -> StartSend<Self::SinkItem, io::Error> {
        let mut waiting = Some(item);
        let mut event = WriterEvent::Start;
        loop {
            match self.0.start_send(&mut waiting, event) {
                SendStep::Request(request) => event = self.perform(request),
                SendStep::Done(Ok(AsyncSink::Ready)) => return Ok(futures::AsyncSink::Ready),
                SendStep::Done(Ok(AsyncSink::NotReady)) => {
                    return Ok(futures::AsyncSink::NotReady(waiting.unwrap()))
                }
                SendStep::Done(Err(error)) => return Err(io_error(error)),
            }
        }
    }

    fn poll_complete(&mut self) -> Poll<(), io::Error> {
        let mut event = WriterEvent::Start;
        loop {
            match self.0.poll_complete(event) {
                SinkStep::Request(request) => event = self.perform(request),
                SinkStep::Done(result) => return result.map(poll_of).map_err(io_error),
            }
        }
    }

    fn close(&mut self) -> Poll<(), io::Error> {
        let mut event = WriterEvent::Start;
        loop {
            match self.0.close(event) {
                SinkStep::Request(request) => event = self.perform(request),
                SinkStep::Done(result) => return result.map(poll_of).map_err(io_error),
            }
        }
    }
}

struct Receiver<R>(CodecStream<R>);

impl<R: AsyncRead> Stream for Receiver<R> {
    type Item = (Box<[u8]>, Metadata);
    type Error = io::Error;

    fn poll(&mut self) -> Poll<Option<Self::Item>, io::Error> {
        let mut buf = Vec::new();
        let mut event = ReaderEvent::Start;
        loop {
            match self.0.poll(event) {
                StreamStep::Read(n) => {
                    buf = vec![0; n];
                    event = match self.0.reader_mut().read(&mut buf) {
                        Ok(n) => ReaderEvent::Read(&buf[..n]),
                        Err(error) => ReaderEvent::Failed(kind(&error), error),
                    };
                }
                StreamStep::Done(result) => return result.map(poll_of).map_err(io_error),
            }
        }
    }
}

#[test]
fn codec_sink_stream() {
    let rng = StdGen::new(rand::thread_rng(), 2000);
    let mut quickcheck = QuickCheck::new().gen(rng).tests(200);
    quickcheck.quickcheck(
        test_codec_sink_stream
            as fn(
                usize,
                PartialWithErrors<GenInterruptedWouldBlock>,
                PartialWithErrors<GenInterruptedWouldBlock>,
                Vec<u8>,
            ) -> bool,
    );
}

fn test_codec_sink_stream(
    buf_size: usize,
    write_ops: PartialWithErrors<GenInterruptedWouldBlock>,
    read_ops: PartialWithErrors<GenInterruptedWouldBlock>,
    data: Vec<u8>,
) -> bool {
    let expected_data = data.clone();

    let (writer, reader) = ring_buffer(buf_size + 1);
    let writer = PartialAsyncWrite::new(writer, write_ops);
    let reader = PartialAsyncRead::new(reader, read_ops);

    let sink = Sender(CodecSink::new(writer));
    let stream = Receiver(CodecStream::new(reader));

    let send = sink.send_all(iter_ok::<_, io::Error>((0..data.len()).map(|i| {
        (
            vec![data[i]],
            Metadata {
                flags: 0,
                id: i as PacketId,
            },
        )
    })));

    let (received, _) = stream.collect().join(send).wait().unwrap();

    if received.len() != expected_data.len() {
        return false;
    }

    for (i, &(ref data, ref metadata)) in received.iter().enumerate() {
        if (i as PacketId) != metadata.id
            || metadata.is_stream_packet()
            || metadata.is_end_packet()
            || (!metadata.is_buffer_packet()
                || data != &vec![expected_data[i]].into_boxed_slice())
        {
            return false;
        }
    }

    true
}
