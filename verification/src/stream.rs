//! Decoding: a stream that turns the bytes of packets back into items.
use vstd::prelude::*;

use crate::event::{
    Async, CodecError, Error, ErrorKind, Part, ReaderEvent, StreamStep,
};
use crate::metadata::{Metadata, TYPE_UNUSED};
use crate::wire;

verus! {

/// What a stream is doing.
#[verifier::ext_equal]
pub enum StreamModel {
    /// A packet is read, and `seen` are the bytes of it that have been.
    Reading { seen: Seq<u8> },
    /// The header that ends the stream has been read.
    Ended,
    /// Reading the data of a packet has failed, and what was read of it is lost.
    Failed,
}

/// What happened, as far as the stream takes notice of it.
pub enum ReaderInput<E> {
    /// A call begins.
    Start,
    /// The reader delivered these bytes.
    Read(Seq<u8>),
    /// The operation on the reader failed.
    Failed(ErrorKind, E),
}

/// How the stream answers.
pub enum StreamReply<E> {
    /// At most this many bytes are to be read.
    Read(int),
    /// The reader is not ready.
    NotReady,
    /// The next item.
    Item(Seq<u8>, Metadata),
    /// The stream has ended.
    End,
    /// The call failed.
    Error(Error<E>),
}

impl<'a, E> View for ReaderEvent<'a, E> {
    type V = ReaderInput<E>;

    open spec fn view(&self) -> ReaderInput<E> {
        match *self {
            ReaderEvent::Start => ReaderInput::Start,
            ReaderEvent::Read(bytes) => ReaderInput::Read(bytes@),
            ReaderEvent::Failed(kind, error) => ReaderInput::Failed(kind, error),
        }
    }
}

impl<E> View for StreamStep<E> {
    type V = StreamReply<E>;

    open spec fn view(&self) -> StreamReply<E> {
        match *self {
            StreamStep::Read(n) => StreamReply::Read(n as int),
            StreamStep::Done(Ok(Async::NotReady)) => StreamReply::NotReady,
            StreamStep::Done(Ok(Async::Ready(Some((data, metadata))))) => StreamReply::Item(
                data@,
                metadata,
            ),
            StreamStep::Done(Ok(Async::Ready(None))) => StreamReply::End,
            StreamStep::Done(Err(error)) => StreamReply::Error(error),
        }
    }
}

/// The number of bytes that are read next: what the current part of the packet
/// lacks.
pub open spec fn missing(seen: Seq<u8>) -> int {
    let len = if seen.len() < 9 {
        9
    } else {
        9 + wire::length_of(seen)
    };
    wire::part_end(seen.len() as int, len) - seen.len()
}

impl StreamModel {
    /// Whether a stream can be in this situation: what has been read is the
    /// beginning of a packet, and not all of it.
    pub open spec fn valid(self) -> bool {
        match self {
            StreamModel::Reading { seen } => {
                &&& seen.len() > 0 ==> seen[0] % 4 != TYPE_UNUSED
                &&& seen.len() >= 9 ==> {
                    &&& seen.take(9) != wire::end_header()
                    &&& seen.len() < 9 + wire::length_of(seen)
                }
            },
            _ => true,
        }
    }

    /// Whether `input` can be what happened: after the end nothing is read.
    pub open spec fn expects<E>(self, input: ReaderInput<E>) -> bool {
        self is Ended ==> input is Start
    }

    /// What becomes of the stream when an operation of the reader fails: data is lost.
    pub open spec fn broken(self) -> StreamModel {
        match self {
            StreamModel::Reading { seen } => if seen.len() < 9 {
                self
            } else {
                StreamModel::Failed
            },
            _ => self,
        }
    }

    /// How the stream goes on when the bytes of the current packet that have been
    /// read are `seen`.
    pub open spec fn reached<E>(seen: Seq<u8>) -> (StreamModel, StreamReply<E>) {
        if seen.len() > 0 && seen[0] % 4 == TYPE_UNUSED {
            (
                StreamModel::Reading { seen: Seq::empty() },
                StreamReply::Error(Error::Codec(CodecError::InvalidType)),
            )
        } else if seen.len() >= 9 && seen.take(9) == wire::end_header() {
            (StreamModel::Ended, StreamReply::End)
        } else if seen.len() >= 9 && seen.len() == 9 + wire::length_of(seen) {
            (
                StreamModel::Reading { seen: Seq::empty() },
                StreamReply::Item(seen.skip(9), wire::metadata_of(seen)),
            )
        } else {
            (StreamModel::Reading { seen }, StreamReply::Read(missing(seen)))
        }
    }

    /// How the stream goes on after `input` to get the next item. Bytes beyond
    /// those that were asked for are not taken notice of. A stream that has failed
    /// is not asked.
    pub open spec fn after_poll<E>(self, input: ReaderInput<E>) -> (StreamModel, StreamReply<E>) {
        match self {
            StreamModel::Reading { seen } => match input {
                ReaderInput::Start => (self, StreamReply::Read(missing(seen))),
                ReaderInput::Read(bytes) => if bytes.len() == 0 {
                    (
                        self.broken(),
                        StreamReply::Error(
                            Error::Codec(CodecError::UnexpectedEof(wire::part_at(seen.len() as int))),
                        ),
                    )
                } else {
                    StreamModel::reached(
                        seen + bytes.take(wire::least(bytes.len() as int, missing(seen))),
                    )
                },
                ReaderInput::Failed(kind, error) => if kind == ErrorKind::Interrupted {
                    (self, StreamReply::Read(missing(seen)))
                } else if kind == ErrorKind::WouldBlock {
                    (self, StreamReply::NotReady)
                } else {
                    (self.broken(), StreamReply::Error(Error::Io(error)))
                },
            },
            _ => (self, StreamReply::End),
        }
    }
}

// What the stream does.
enum StreamState {
    // read the flags of the packet
    Flags,
    // read the length of the packet (state is the read offset, and a buffer to read into)
    Length(u8, [u8; 4]),
    // read the id of the packet (state is the read offset, a buffer to read into,
    // and the length of the currently decoded packet); an offset of four says that
    // the stream has ended
    Id(u8, [u8; 4], u32),
    // read the actual data of the packet (state is the length of the currently decoded packet)
    Data(u32),
}

/// This stream decodes pairs of data and metadata from the wrapped reader of
/// type `R`.
///
/// The stream does not read by itself. A call of `poll` begins with
/// `ReaderEvent::Start`. As long as the stream answers with a request, at most as
/// many bytes are read from the reader (see `reader_mut`), and `poll` is called
/// again with what happened.
pub struct CodecStream<R> {
    reader: R,
    state: StreamState,
    metadata: Metadata,
    data: Option<Vec<u8>>,
}

impl<R> View for CodecStream<R> {
    type V = StreamModel;

    closed spec fn view(&self) -> StreamModel {
        let flags = seq![self.metadata.flags];
        match self.state {
            StreamState::Flags => StreamModel::Reading { seen: Seq::empty() },
            StreamState::Length(offset, buf) => StreamModel::Reading {
                seen: flags + buf@.take(offset as int),
            },
            StreamState::Id(offset, buf, length) => if offset < 4 {
                StreamModel::Reading {
                    seen: flags + wire::be_bytes(length as int) + buf@.take(offset as int),
                }
            } else {
                StreamModel::Ended
            },
            StreamState::Data(length) => match self.data {
                Some(data) => StreamModel::Reading {
                    seen: wire::header(self.metadata, length as int) + data@,
                },
                None => StreamModel::Failed,
            },
        }
    }
}

impl<R> CodecStream<R> {
    /// The wrapped reader.
    pub closed spec fn reader(self) -> R {
        self.reader
    }

    /// The invariant of a stream.
    pub closed spec fn wf(self) -> bool {
        match self.state {
            StreamState::Flags => true,
            StreamState::Length(offset, _) => offset < 4 && self.metadata.type_value() != TYPE_UNUSED,
            StreamState::Id(offset, _, _) => offset < 4 ==> self.metadata.type_value() != TYPE_UNUSED,
            StreamState::Data(length) => self.data matches Some(data) ==> {
                &&& self.metadata.type_value() != TYPE_UNUSED
                &&& wire::header(self.metadata, length as int) != wire::end_header()
                &&& data@.len() < length
            },
        }
    }

    /// Every stream is in a situation that makes sense.
    pub proof fn law_valid(self)
        requires
            self.wf(),
        ensures
            self@.valid(),
    {
        if let StreamModel::Reading { seen } = self@ {
            if let StreamState::Data(length) = self.state {
                let data = self.data.unwrap()@;
                wire::law_header_read_back(self.metadata, length as int, data);
            }
        }
    }

    /// Create a new `CodecStream`, wrapping the given reader.
    pub fn new(reader: R) -> (r: CodecStream<R>)
        ensures
            r.wf(),
            r@ == (StreamModel::Reading { seen: Seq::empty() }),
            r.reader() == reader,
    {
        CodecStream {
            reader,
            state: StreamState::Flags,
            metadata: Metadata { flags: 0, id: 0 },
            data: None,
        }
    }

    /// Consume the `CodecStream` to retrieve ownership of the inner reader.
    pub fn into_inner(self) -> (r: R)
        ensures
            r == self.reader(),
    {
        self.reader
    }

    /// Whether reading the data of a packet has failed. From then on there is no
    /// next item to ask for.
    pub fn has_failed(&self) -> (r: bool)
        ensures
            r == (self@ is Failed),
    {
        match self.state {
            StreamState::Data(_) => self.data.is_none(),
            _ => false,
        }
    }

    /// The wrapped reader, to be read from.
    pub fn reader_mut(&mut self) -> (r: &mut R)
        requires
            old(self).wf(),
        ensures
            *r == old(self).reader(),
            final(self).wf(),
            final(self)@ == old(self)@,
            final(self).reader() == *final(r),
    {
        &mut self.reader
    }

    // Ask for what the current part lacks.
    fn ask<E>(&self) -> (r: StreamStep<E>)
        requires
            self.wf(),
            !(self@ is Failed),
        ensures
            (self@, r@) == self@.after_poll::<E>(ReaderInput::Start),
    {
        match self.state {
            StreamState::Flags => StreamStep::Read(1),
            StreamState::Length(offset, _) => StreamStep::Read(4 - offset as usize),
            StreamState::Id(offset, _, _) => {
                if offset < 4 {
                    StreamStep::Read(4 - offset as usize)
                } else {
                    StreamStep::Done(Ok(Async::Ready(None)))
                }
            },
            StreamState::Data(length) => match &self.data {
                Some(data) => {
                    proof {
                        wire::law_header_read_back(self.metadata, length as int, data@);
                    }
                    StreamStep::Read(length as usize - data.len())
                },
                None => StreamStep::Done(Ok(Async::Ready(None))),
            },
        }
    }

    // The part that is read.
    fn part(&self) -> (r: Part)
        requires
            self.wf(),
        ensures
            self@ matches StreamModel::Reading { seen } ==> r == wire::part_at(seen.len() as int),
    {
        match self.state {
            StreamState::Flags => Part::Flags,
            StreamState::Length(_, _) => Part::Length,
            StreamState::Id(_, _, _) => Part::Id,
            StreamState::Data(_) => Part::Data,
        }
    }

    // Give up what has been read of the data of a packet.
    fn give_up(&mut self)
        requires
            old(self).wf(),
        ensures
            final(self).wf(),
            final(self)@ == old(self)@.broken(),
            final(self).reader() == old(self).reader(),
    {
        match self.state {
            StreamState::Data(_) => {
                self.data = None;
            },
            _ => {},
        }
    }

    // Take note of bytes that the reader has delivered.
    fn receive<E>(&mut self, bytes: &[u8]) -> (r: StreamStep<E>)
        requires
            old(self).wf(),
            old(self)@ is Reading,
            bytes@.len() > 0,
        ensures
            final(self).wf(),
            (final(self)@, r@) == old(self)@.after_poll::<E>(ReaderInput::Read(bytes@)),
            final(self).reader() == old(self).reader(),
    {
        let ghost seen = self@->seen;
        let ghost next = seen + bytes@.take(wire::least(bytes@.len() as int, missing(seen)));
        match self.state {
            StreamState::Flags => {
                self.metadata.flags = bytes[0];
                assert(next =~= seq![bytes[0]]);
                if self.metadata.is_unused_packet() {
                    StreamStep::Done(Err(Error::Codec(CodecError::InvalidType)))
                } else {
                    let buf: [u8; 4] = [0, 0, 0, 0];
                    self.state = StreamState::Length(0, buf);
                    assert(seq![bytes[0]] + buf@.take(0) =~= next);
                    StreamStep::Read(4)
                }
            },
            StreamState::Length(offset, buf) => {
                let (buf, offset): ([u8; 4], u8) = fill(buf, offset, bytes);
                assert(next =~= seq![self.metadata.flags] + buf@.take(offset as int));
                if offset < 4 {
                    self.state = StreamState::Length(offset, buf);
                    StreamStep::Read(4 - offset as usize)
                } else {
                    let length: u32 = wire::u32_from_be_bytes(buf);
                    let id: [u8; 4] = [0, 0, 0, 0];
                    self.state = StreamState::Id(0, id, length);
                    proof {
                        wire::law_be_bytes(length as int, buf@);
                        assert(next =~= seq![self.metadata.flags] + wire::be_bytes(length as int)
                            + id@.take(0));
                    }
                    StreamStep::Read(4)
                }
            },
            StreamState::Id(offset, buf, length) => {
                let (buf, offset): ([u8; 4], u8) = fill(buf, offset, bytes);
                assert(next =~= seq![self.metadata.flags] + wire::be_bytes(length as int)
                    + buf@.take(offset as int));
                if offset < 4 {
                    self.state = StreamState::Id(offset, buf, length);
                    StreamStep::Read(4 - offset as usize)
                } else {
                    assert(buf@.take(4) =~= buf@);
                    self.begin_data(buf, length, Ghost(next))
                }
            },
            StreamState::Data(length) => match self.data.take() {
                Some(data) => {
                    let mut data: Vec<u8> = data;
                    let ghost before = data@;
                    let lack: usize = length as usize - data.len();
                    let n: usize = if bytes.len() < lack {
                        bytes.len()
                    } else {
                        lack
                    };
                    proof {
                        wire::law_header_read_back(self.metadata, length as int, before);
                    }
                    data.extend_from_slice(&bytes[0..n]);
                    assert(data@ =~= before + bytes@.take(n as int));
                    assert(next =~= wire::header(self.metadata, length as int) + data@);
                    proof {
                        wire::law_header_read_back(self.metadata, length as int, data@);
                    }
                    if n < lack {
                        self.data = Some(data);
                        StreamStep::Read(lack - n)
                    } else {
                        self.state = StreamState::Flags;
                        StreamStep::Done(
                            Ok(Async::Ready(Some((into_boxed_slice(data), self.metadata)))),
                        )
                    }
                },
                None => StreamStep::Done(Ok(Async::Ready(None))),
            },
        }
    }

    // Go on after the header: to the data of the packet or to the end of the stream.
    fn begin_data<E>(
        &mut self,
        id: [u8; 4],
        length: u32,
        Ghost(seen): Ghost<Seq<u8>>,
    ) -> (r: StreamStep<E>)
        requires
            old(self).metadata.type_value() != TYPE_UNUSED,
            seen == seq![old(self).metadata.flags] + wire::be_bytes(length as int) + id@,
        ensures
            final(self).wf(),
            (final(self)@, r@) == StreamModel::reached::<E>(seen),
            final(self).reader() == old(self).reader(),
    {
        self.metadata.id = wire::id_from_be_bytes(id);
        proof {
            wire::law_be_bytes(length as int, id@);
            wire::law_id_code(self.metadata.id, wire::be_value(id@));
            wire::law_end_header(self.metadata, length as int);
            assert(seen =~= wire::header(self.metadata, length as int));
            assert(seen.take(9) =~= seen);
            wire::law_header_read_back(self.metadata, length as int, Seq::empty());
            assert(seen + Seq::<u8>::empty() =~= seen);
        }
        if length == 0 && self.metadata.flags == 0 && self.metadata.id == 0 {
            self.state = StreamState::Id(4, id, length);
            StreamStep::Done(Ok(Async::Ready(None)))
        } else {
            let data: Vec<u8> = Vec::new();
            if length == 0 {
                assert(seen.skip(9) =~= data@);
                self.state = StreamState::Flags;
                StreamStep::Done(Ok(Async::Ready(Some((into_boxed_slice(data), self.metadata)))))
            } else {
                self.data = Some(data);
                self.state = StreamState::Data(length);
                StreamStep::Read(length as usize)
            }
        }
    }

    /// Get the next item, or `None` at the end of the stream.
    ///
    /// A packet whose type flags have the unused value is an error of kind
    /// `InvalidData`; the byte after its flags is taken for the next packet.
    ///
    /// An error of the reader, or its end, while the data of a packet is read
    /// loses what has been read of it. After that there is no next item to ask for.
    pub fn poll<E>(&mut self, event: ReaderEvent<'_, E>) -> (r: StreamStep<E>)
        requires
            old(self).wf(),
            !(old(self)@ is Failed),
            old(self)@.expects(event@),
        ensures
            final(self).wf(),
            (final(self)@, r@) == old(self)@.after_poll(event@),
            final(self).reader() == old(self).reader(),
            r matches StreamStep::Done(Ok(Async::Ready(Some((_, metadata)))))
                ==> metadata.type_value() != TYPE_UNUSED,
    {
        match event {
            ReaderEvent::Start => self.ask(),
            ReaderEvent::Read(bytes) => {
                if bytes.len() == 0 {
                    let part: Part = self.part();
                    self.give_up();
                    StreamStep::Done(Err(Error::Codec(CodecError::UnexpectedEof(part))))
                } else {
                    self.receive(bytes)
                }
            },
            ReaderEvent::Failed(kind, error) => match kind {
                ErrorKind::WouldBlock => StreamStep::Done(Ok(Async::NotReady)),
                ErrorKind::Interrupted => self.ask(),
                _ => {
                    self.give_up();
                    StreamStep::Done(Err(Error::Io(error)))
                },
            },
        }
    }
}

// Put bytes into the buffer, from `offset` on and as many as fit.
fn fill(buf: [u8; 4], offset: u8, bytes: &[u8]) -> (r: ([u8; 4], u8))
    requires
        offset < 4,
    ensures
        r.1 == wire::least(offset + bytes@.len(), 4),
        r.0@.take(r.1 as int) == buf@.take(offset as int) + bytes@.take(r.1 - offset),
{
    let mut filled: [u8; 4] = buf;
    let mut i: usize = 0;
    while i < bytes.len() && i < 4 - offset as usize
        invariant
            offset < 4,
            i <= bytes@.len(),
            i <= 4 - offset,
            filled@.take(offset + i) == buf@.take(offset as int) + bytes@.take(i as int),
        decreases bytes@.len() - i,
    {
        let ghost before = filled@;
        filled[offset as usize + i] = bytes[i];
        i = i + 1;
        assert(filled@.take(offset + i) =~= before.take(offset + i - 1).push(bytes[i - 1]));
        assert(bytes@.take(i as int) =~= bytes@.take(i - 1).push(bytes[i - 1]));
    }
    (filled, offset + i as u8)
}

/// `Vec::into_boxed_slice`: the boxed slice holds the elements of the vector, in
/// the same order.
#[verifier::external_body]
fn into_boxed_slice(data: Vec<u8>) -> (r: Box<[u8]>)
    ensures
        r@ == data@,
{
    data.into_boxed_slice()
}

} // verus!
