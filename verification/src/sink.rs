//! Encoding: a sink that turns items into the bytes of packets.
use vstd::prelude::*;

use crate::event::{
    Async, AsyncSink, CodecError, Error, ErrorKind, Part, SendStep, SinkStep, WriterEvent,
    WriterRequest,
};
use crate::metadata::{BeMetadata, Metadata};
use crate::wire;
use crate::wire::ZEROS;

verus! {

/// What a sink is doing.
#[verifier::ext_equal]
pub enum SinkModel {
    /// Nothing: there is no packet to be written.
    Idle,
    /// The bytes of `packet` are written, and `pos` of them have been.
    Sending { packet: Seq<u8>, pos: int },
    /// The header that ends the stream is written, and `pos` bytes of it have been.
    Ending { pos: int },
    /// The stream has ended, and the writer is shut down.
    Shutdown,
}

impl SinkModel {
    /// Whether a sink can be in this situation.
    pub open spec fn valid(self) -> bool {
        match self {
            SinkModel::Sending { packet, pos } => {
                &&& 0 <= pos < packet.len()
                &&& 9 <= packet.len()
            },
            SinkModel::Ending { pos } => 0 <= pos < 9,
            _ => true,
        }
    }

    /// Whether the end of the stream has begun.
    pub open spec fn closing(self) -> bool {
        self is Ending || self is Shutdown
    }

    /// The bytes that are still to be written.
    pub open spec fn pending(self) -> Seq<u8> {
        match self {
            SinkModel::Sending { packet, pos } => packet.skip(pos),
            SinkModel::Ending { pos } => wire::end_header().skip(pos),
            _ => Seq::empty(),
        }
    }

    /// The bytes that the writer is handed next: what is left of the current part.
    pub open spec fn chunk(self) -> Seq<u8> {
        match self {
            SinkModel::Sending { packet, pos } => packet.subrange(
                pos,
                wire::part_end(pos, packet.len() as int),
            ),
            SinkModel::Ending { pos } => wire::end_header().skip(pos),
            _ => Seq::empty(),
        }
    }

    /// The part that is written.
    pub open spec fn part(self) -> Part {
        match self {
            SinkModel::Sending { packet, pos } => wire::part_at(pos),
            _ => Part::EndOfStream,
        }
    }

    /// What the writer has to do.
    pub open spec fn request(self) -> WriterRequest {
        match self {
            SinkModel::Idle => WriterRequest::Flush,
            SinkModel::Shutdown => WriterRequest::Shutdown,
            _ => WriterRequest::Write,
        }
    }

    /// What becomes of the sink when the writer takes `n` bytes. Never more than
    /// the current part is taken for written.
    pub open spec fn wrote(self, n: int) -> SinkModel {
        match self {
            SinkModel::Sending { packet, pos } => {
                let end = wire::least(pos + n, wire::part_end(pos, packet.len() as int));
                if end < packet.len() {
                    SinkModel::Sending { packet, pos: end }
                } else {
                    SinkModel::Idle
                }
            },
            SinkModel::Ending { pos } => if pos + n < 9 {
                SinkModel::Ending { pos: pos + n }
            } else {
                SinkModel::Shutdown
            },
            _ => self,
        }
    }

    /// Whether `event` can be what happened: an operation that was asked for.
    pub open spec fn expects<E>(self, event: WriterEvent<E>) -> bool {
        match event {
            WriterEvent::Start => true,
            WriterEvent::Wrote(_) => self.request() == WriterRequest::Write,
            WriterEvent::Flushed => self.request() == WriterRequest::Flush,
            WriterEvent::Shutdown(_) => self.request() == WriterRequest::Shutdown,
            WriterEvent::Failed(_, _) => true,
        }
    }

    /// How the sink goes on after `event` to write and flush what it holds, and
    /// to end the stream once that has begun.
    pub open spec fn after_complete<E>(self, event: WriterEvent<E>) -> (SinkModel, SinkStep<E>) {
        match event {
            WriterEvent::Start => (self, SinkStep::Request(self.request())),
            WriterEvent::Wrote(n) => if n == 0 {
                (self, SinkStep::Done(Err(Error::Codec(CodecError::WriteZero(self.part())))))
            } else {
                (self.wrote(n as int), SinkStep::Request(self.wrote(n as int).request()))
            },
            WriterEvent::Flushed => (self, SinkStep::Done(Ok(Async::Ready(())))),
            WriterEvent::Shutdown(answer) => (self, SinkStep::Done(Ok(answer))),
            WriterEvent::Failed(kind, error) => if self is Shutdown {
                (self, SinkStep::Done(Err(Error::Io(error))))
            } else if kind == ErrorKind::Interrupted {
                (self, SinkStep::Request(self.request()))
            } else if kind == ErrorKind::WouldBlock {
                (self, SinkStep::Done(Ok(Async::NotReady)))
            } else {
                (self, SinkStep::Done(Err(Error::Io(error))))
            },
        }
    }

    /// How the sink goes on after `event` to end the stream: once there is
    /// nothing left to be written, the header that ends it is.
    pub open spec fn after_close<E>(self, event: WriterEvent<E>) -> (SinkModel, SinkStep<E>) {
        let (model, step) = self.after_complete(event);
        if !self.closing() && ((self is Idle && event is Start) || step == SinkStep::<E>::Done(
            Ok(Async::Ready(())),
        )) {
            (SinkModel::Ending { pos: 0 }, SinkStep::Request(WriterRequest::Write))
        } else {
            (model, step)
        }
    }

    /// How a sink with nothing to be written takes an item.
    pub open spec fn accepted<E>(data: Seq<u8>, metadata: Metadata) -> (SinkModel, SendStep<E>) {
        if data.len() > u32::MAX {
            (SinkModel::Idle, SendStep::Done(Err(Error::Codec(CodecError::ItemTooLarge))))
        } else {
            (
                SinkModel::Sending { packet: wire::encode(data, metadata), pos: 0 },
                SendStep::Request(WriterRequest::Write),
            )
        }
    }

    /// Whether the item that waits is taken up after `event`, be it to be sent or
    /// to be refused: the packet before it has been written, and flushed if that
    /// was asked for.
    pub open spec fn makes_room<E>(self, event: WriterEvent<E>) -> bool {
        ||| self is Idle && event is Start
        ||| self.after_complete(event).1 == SinkStep::<E>::Done(Ok(Async::Ready(())))
    }

    /// How the sink goes on after `event` to send an item. `item` is what waits
    /// to be taken up; it is `None` once that has been done.
    pub open spec fn after_send<E>(
        self,
        item: Option<(Seq<u8>, Metadata)>,
        event: WriterEvent<E>,
    ) -> (SinkModel, SendStep<E>) {
        let (model, step) = self.after_complete(event);
        match item {
            Some((data, metadata)) => if self.makes_room(event) {
                SinkModel::accepted(data, metadata)
            } else {
                (
                    model,
                    match step {
                        SinkStep::Request(request) => SendStep::Request(request),
                        SinkStep::Done(Ok(_)) => SendStep::Done(Ok(AsyncSink::NotReady)),
                        SinkStep::Done(Err(error)) => SendStep::Done(Err(error)),
                    },
                )
            },
            None => (
                model,
                match step {
                    SinkStep::Request(request) => SendStep::Request(request),
                    SinkStep::Done(Ok(_)) => SendStep::Done(Ok(AsyncSink::Ready)),
                    SinkStep::Done(Err(error)) => SendStep::Done(Err(error)),
                },
            ),
        }
    }
}

/// What an item stands for.
pub open spec fn item_view(item: Option<(Vec<u8>, Metadata)>) -> Option<(Seq<u8>, Metadata)> {
    match item {
        Some((data, metadata)) => Some((data@, metadata)),
        None => None,
    }
}

// What the sink does.
enum SinkState {
    // initial and after a packet has been written
    Idle,
    // write a packet
    Buffering(WritePacketState),
    // write the end-of-stream header, u8 signifies how many bytes have been written
    EndOfStream(u8),
    // shut down the wrapped writer
    Shutdown,
}

// State for actually writing data.
#[derive(Debug, Copy, Clone)]
enum WritePacketState {
    Flags,
    Length(u8),  // u8 signifies how many bytes of the length have been written
    Id(u8),  // u8 signifies how many bytes of the id have been written
    Data(u32),  // u32 signifies how many bytes of the packet have been written
}

/// This sink consumes pairs of data and `Metadata` and encodes them for the
/// wrapped writer of type `W`.
///
/// The sink does not write by itself. A call of `start_send`, `poll_complete` or
/// `close` begins with `WriterEvent::Start`. As long as the sink answers with a
/// request, the request is performed on the writer (see `next_write` and
/// `writer_mut`), and the same function is called again with what happened.
pub struct CodecSink<W> {
    writer: W,
    bytes: Option<Vec<u8>>,
    // the header that is being written
    header: [u8; 9],
    state: SinkState,
}

impl<W> View for CodecSink<W> {
    type V = SinkModel;

    closed spec fn view(&self) -> SinkModel {
        match self.state {
            SinkState::Idle => SinkModel::Idle,
            SinkState::Buffering(state) => SinkModel::Sending {
                packet: self.header@ + self.bytes.unwrap()@,
                pos: match state {
                    WritePacketState::Flags => 0,
                    WritePacketState::Length(offset) => 1 + offset,
                    WritePacketState::Id(offset) => 5 + offset,
                    WritePacketState::Data(offset) => 9 + offset,
                },
            },
            SinkState::EndOfStream(offset) => SinkModel::Ending { pos: offset as int },
            SinkState::Shutdown => SinkModel::Shutdown,
        }
    }
}

impl<W> CodecSink<W> {
    /// The wrapped writer.
    pub closed spec fn writer(self) -> W {
        self.writer
    }

    /// The invariant of a sink.
    pub closed spec fn wf(self) -> bool {
        match self.state {
            SinkState::Buffering(state) => {
                &&& self.bytes is Some
                &&& self.bytes.unwrap()@.len() <= u32::MAX
                &&& match state {
                    WritePacketState::Flags => true,
                    WritePacketState::Length(offset) => offset < 4,
                    WritePacketState::Id(offset) => offset < 4,
                    WritePacketState::Data(offset) => offset < self.bytes.unwrap()@.len(),
                }
            },
            SinkState::EndOfStream(offset) => offset < 9 && self.header@ == wire::end_header(),
            _ => true,
        }
    }

    /// Every sink is in a situation that makes sense.
    pub proof fn law_valid(self)
        requires
            self.wf(),
        ensures
            self@.valid(),
    {
    }

    /// Create a new `CodecSink`, wrapping the given writer.
    pub fn new(writer: W) -> (r: CodecSink<W>)
        ensures
            r.wf(),
            r@ == SinkModel::Idle,
            r.writer() == writer,
    {
        CodecSink { writer, bytes: None, header: ZEROS, state: SinkState::Idle }
    }

    /// Consume the `CodecSink` to retrieve ownership of the inner writer.
    pub fn into_inner(self) -> (r: W)
        ensures
            r == self.writer(),
    {
        self.writer
    }

    /// Whether `close` has begun to end the stream. From then on nothing can be
    /// sent.
    pub fn is_closing(&self) -> (r: bool)
        ensures
            r == self@.closing(),
    {
        match self.state {
            SinkState::Idle | SinkState::Buffering(_) => false,
            SinkState::EndOfStream(_) | SinkState::Shutdown => true,
        }
    }

    /// The wrapped writer, to be flushed or shut down.
    pub fn writer_mut(&mut self) -> (r: &mut W)
        requires
            old(self).wf(),
        ensures
            *r == old(self).writer(),
            final(self).wf(),
            final(self)@ == old(self)@,
            final(self).writer() == *final(r),
    {
        &mut self.writer
    }

    /// The wrapped writer and the bytes that it is to be handed.
    pub fn next_write(&mut self) -> (r: (&mut W, &[u8]))
        requires
            old(self).wf(),
        ensures
            *r.0 == old(self).writer(),
            r.1@ == old(self)@.chunk(),
            final(self).wf(),
            final(self)@ == old(self)@,
            final(self).writer() == *final(r.0),
    {
        let ghost model = self@;
        let chunk: &[u8] = match self.state {
            SinkState::Buffering(state) => match &self.bytes {
                Some(bytes) => {
                    let ghost packet = self.header@ + bytes@;
                    match state {
                        WritePacketState::Flags => {
                            assert(self.header@.subrange(0, 1) =~= packet.subrange(0, 1));
                            &self.header[0..1]
                        },
                        WritePacketState::Length(offset) => {
                            assert(self.header@.subrange(1 + offset, 5) =~= packet.subrange(
                                1 + offset,
                                5,
                            ));
                            &self.header[1 + offset as usize..5]
                        },
                        WritePacketState::Id(offset) => {
                            assert(self.header@.subrange(5 + offset, 9) =~= packet.subrange(
                                5 + offset,
                                9,
                            ));
                            &self.header[5 + offset as usize..9]
                        },
                        WritePacketState::Data(offset) => {
                            assert(bytes@.subrange(offset as int, bytes@.len() as int)
                                =~= packet.subrange(9 + offset, packet.len() as int));
                            &bytes[offset as usize..bytes.len()]
                        },
                    }
                },
                None => &[],
            },
            SinkState::EndOfStream(offset) => {
                assert(self.header@.subrange(offset as int, 9) =~= wire::end_header().skip(
                    offset as int,
                ));
                &self.header[offset as usize..9]
            },
            _ => &[],
        };
        assert(chunk@ =~= model.chunk());
        (&mut self.writer, chunk)
    }

    // What the writer has to do.
    fn request(&self) -> (r: WriterRequest)
        requires
            self.wf(),
        ensures
            r == self@.request(),
    {
        match self.state {
            SinkState::Idle => WriterRequest::Flush,
            SinkState::Buffering(_) | SinkState::EndOfStream(_) => WriterRequest::Write,
            SinkState::Shutdown => WriterRequest::Shutdown,
        }
    }

    // The part that is written.
    fn part(&self) -> (r: Part)
        requires
            self.wf(),
            self@.request() == WriterRequest::Write,
        ensures
            r == self@.part(),
    {
        match self.state {
            SinkState::Buffering(WritePacketState::Flags) => Part::Flags,
            SinkState::Buffering(WritePacketState::Length(_)) => Part::Length,
            SinkState::Buffering(WritePacketState::Id(_)) => Part::Id,
            SinkState::Buffering(WritePacketState::Data(_)) => Part::Data,
            _ => Part::EndOfStream,
        }
    }

    // Go on to the data of the packet, if there is any.
    fn begin_data(&mut self)
        requires
            old(self).bytes is Some,
            old(self).bytes.unwrap()@.len() <= u32::MAX,
        ensures
            final(self).wf(),
            final(self).writer() == old(self).writer(),
            final(self)@ == (if old(self).bytes.unwrap()@.len() == 0 {
                SinkModel::Idle
            } else {
                SinkModel::Sending {
                    packet: old(self).header@ + old(self).bytes.unwrap()@,
                    pos: 9,
                }
            }),
    {
        let len: usize = match &self.bytes {
            Some(bytes) => bytes.len(),
            None => 0,
        };
        if len == 0 {
            self.state = SinkState::Idle;
        } else {
            self.state = SinkState::Buffering(WritePacketState::Data(0));
        }
    }

    // Take note of `n` bytes that the writer has taken.
    fn advance(&mut self, n: usize)
        requires
            old(self).wf(),
            old(self)@.request() == WriterRequest::Write,
            n > 0,
        ensures
            final(self).wf(),
            final(self)@ == old(self)@.wrote(n as int),
            final(self).writer() == old(self).writer(),
    {
        match self.state {
            SinkState::Buffering(WritePacketState::Flags) => {
                self.state = SinkState::Buffering(WritePacketState::Length(0));
            },
            SinkState::Buffering(WritePacketState::Length(offset)) => {
                if n < 4 - offset as usize {
                    self.state = SinkState::Buffering(WritePacketState::Length(offset + n as u8));
                } else {
                    self.state = SinkState::Buffering(WritePacketState::Id(0));
                }
            },
            SinkState::Buffering(WritePacketState::Id(offset)) => {
                if n < 4 - offset as usize {
                    self.state = SinkState::Buffering(WritePacketState::Id(offset + n as u8));
                } else {
                    self.begin_data();
                }
            },
            SinkState::Buffering(WritePacketState::Data(offset)) => {
                let len: usize = match &self.bytes {
                    Some(bytes) => bytes.len(),
                    None => 0,
                };
                if n < len - offset as usize {
                    self.state = SinkState::Buffering(WritePacketState::Data(offset + n as u32));
                } else {
                    self.state = SinkState::Idle;
                }
            },
            SinkState::EndOfStream(offset) => {
                if n < 9 - offset as usize {
                    self.state = SinkState::EndOfStream(offset + n as u8);
                } else {
                    self.state = SinkState::Shutdown;
                }
            },
            _ => {},
        }
    }

    /// Write what has been accepted, and flush the writer.
    ///
    /// Once `close` has been called, this goes on to end the stream.
    pub fn poll_complete<E>(&mut self, event: WriterEvent<E>) -> (r: SinkStep<E>)
        requires
            old(self).wf(),
            old(self)@.expects(event),
        ensures
            final(self).wf(),
            (final(self)@, r) == old(self)@.after_complete(event),
            final(self).writer() == old(self).writer(),
    {
        match event {
            WriterEvent::Start => SinkStep::Request(self.request()),
            WriterEvent::Wrote(n) => {
                if n == 0 {
                    SinkStep::Done(Err(Error::Codec(CodecError::WriteZero(self.part()))))
                } else {
                    self.advance(n);
                    SinkStep::Request(self.request())
                }
            },
            WriterEvent::Flushed => SinkStep::Done(Ok(Async::Ready(()))),
            WriterEvent::Shutdown(answer) => SinkStep::Done(Ok(answer)),
            WriterEvent::Failed(kind, error) => match self.state {
                SinkState::Shutdown => SinkStep::Done(Err(Error::Io(error))),
                _ => match kind {
                    ErrorKind::WouldBlock => SinkStep::Done(Ok(Async::NotReady)),
                    ErrorKind::Interrupted => SinkStep::Request(self.request()),
                    _ => SinkStep::Done(Err(Error::Io(error))),
                },
            },
        }
    }

    // Take an item up while there is nothing to be written.
    fn accept<E>(&mut self, data: Vec<u8>, metadata: Metadata) -> (r: SendStep<E>)
        requires
            old(self).wf(),
            old(self)@ is Idle,
        ensures
            final(self).wf(),
            (final(self)@, r) == SinkModel::accepted::<E>(data@, metadata),
            final(self).writer() == old(self).writer(),
    {
        if data.len() as u64 > u32::MAX as u64 {
            SendStep::Done(Err(Error::Codec(CodecError::ItemTooLarge)))
        } else {
            let be: BeMetadata = metadata.to_be();
            let len: [u8; 4] = wire::u32_to_be_bytes(data.len() as u32);
            self.header = [
                be.flags,
                len[0],
                len[1],
                len[2],
                len[3],
                be.id[0],
                be.id[1],
                be.id[2],
                be.id[3],
            ];
            assert(self.header@ =~= wire::header(metadata, data@.len() as int));
            self.bytes = Some(data);
            self.state = SinkState::Buffering(WritePacketState::Flags);
            SendStep::Request(WriterRequest::Write)
        }
    }

    /// Send an item.
    ///
    /// The length of the data may not be larger than `u32::max_value()`.
    /// Otherwise, this ends with an error of kind `InvalidInput`.
    ///
    /// The item is given in `item`. It is taken from there when the packet before
    /// it is out of the way. When the call ends with `AsyncSink::NotReady`, the item
    /// is still there. An accepted item need not have been written: for that, there
    /// are `poll_complete` and `close`. After `close` nothing can be sent.
    pub fn start_send<E>(
        &mut self,
        item: &mut Option<(Vec<u8>, Metadata)>,
        event: WriterEvent<E>,
    ) -> (r: SendStep<E>)
        requires
            old(self).wf(),
            !old(self)@.closing(),
            old(self)@.expects(event),
            event is Start ==> *old(item) is Some,
        ensures
            final(self).wf(),
            (final(self)@, r) == old(self)@.after_send(item_view(*old(item)), event),
            final(self).writer() == old(self).writer(),
            *final(item) == (if old(self)@.makes_room(event) || r matches SendStep::Done(Err(_)) {
                None
            } else {
                *old(item)
            }),
    {
        let room: bool = match (&self.state, &event) {
            (SinkState::Idle, WriterEvent::Start) => true,
            _ => false,
        };
        if room {
            match item.take() {
                Some((data, metadata)) => self.accept(data, metadata),
                None => SendStep::Done(Ok(AsyncSink::Ready)),
            }
        } else {
            match self.poll_complete(event) {
                SinkStep::Request(request) => SendStep::Request(request),
                SinkStep::Done(Ok(Async::Ready(()))) => match item.take() {
                    Some((data, metadata)) => self.accept(data, metadata),
                    None => SendStep::Done(Ok(AsyncSink::Ready)),
                },
                SinkStep::Done(Ok(Async::NotReady)) => match item {
                    Some(_) => SendStep::Done(Ok(AsyncSink::NotReady)),
                    None => SendStep::Done(Ok(AsyncSink::Ready)),
                },
                SinkStep::Done(Err(error)) => {
                    *item = None;
                    SendStep::Done(Err(error))
                },
            }
        }
    }

    /// Write what has been accepted, end the stream, and shut the writer down.
    pub fn close<E>(&mut self, event: WriterEvent<E>) -> (r: SinkStep<E>)
        requires
            old(self).wf(),
            old(self)@.expects(event),
        ensures
            final(self).wf(),
            (final(self)@, r) == old(self)@.after_close(event),
            final(self).writer() == old(self).writer(),
    {
        let begin: bool = match (&self.state, &event) {
            (SinkState::Idle, WriterEvent::Start) => true,
            _ => false,
        };
        if begin {
            return self.begin_end();
        }
        match self.state {
            SinkState::Idle | SinkState::Buffering(_) => match self.poll_complete(event) {
                SinkStep::Done(Ok(Async::Ready(()))) => self.begin_end(),
                step => step,
            },
            SinkState::EndOfStream(_) | SinkState::Shutdown => self.poll_complete(event),
        }
    }

    // Begin to end the stream.
    fn begin_end<E>(&mut self) -> (r: SinkStep<E>)
        ensures
            final(self).wf(),
            final(self)@ == (SinkModel::Ending { pos: 0 }),
            r == SinkStep::<E>::Request(WriterRequest::Write),
            final(self).writer() == old(self).writer(),
    {
        self.header = ZEROS;
        assert(self.header@ =~= wire::end_header());
        self.state = SinkState::EndOfStream(0);
        SinkStep::Request(WriterRequest::Write)
    }
}

} // verus!
