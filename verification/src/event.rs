//! What the codec and its caller say to each other: what the codec asks to have
//! done, how the wrapped reader or writer answered, and how a call ends.
use vstd::prelude::*;

use crate::metadata::Metadata;

verus! {

/// The kinds of errors that are told apart.
#[derive(Debug, Copy, Clone, PartialEq, Eq, Structural)]
pub enum ErrorKind {
    /// A writer did not take any bytes.
    WriteZero,
    /// A reader ended in the middle of the stream.
    UnexpectedEof,
    /// The bytes that were read are not valid.
    InvalidData,
    /// An item cannot be sent.
    InvalidInput,
    /// The operation cannot make progress yet.
    WouldBlock,
    /// The operation was interrupted and can be tried again.
    Interrupted,
    /// Anything else.
    Other,
}

/// The parts of the stream that are read and written separately.
#[derive(Debug, Copy, Clone, PartialEq, Eq, Structural)]
pub enum Part {
    /// The flags of a packet.
    Flags,
    /// The length of the data of a packet.
    Length,
    /// The id of a packet.
    Id,
    /// The data of a packet.
    Data,
    /// The header that ends the stream.
    EndOfStream,
}

/// The errors that the codec itself finds.
#[derive(Debug, Copy, Clone, PartialEq, Eq, Structural)]
pub enum CodecError {
    /// The data of an item is longer than the header of a packet can say.
    ItemTooLarge,
    /// The writer took none of the bytes of this part.
    WriteZero(Part),
    /// The reader ended before this part was complete.
    UnexpectedEof(Part),
    /// The type flags of a packet have the unused value.
    InvalidType,
}

impl CodecError {
    /// The kind of the error.
    pub fn kind(&self) -> (r: ErrorKind)
        ensures
            r == match *self {
                CodecError::ItemTooLarge => ErrorKind::InvalidInput,
                CodecError::WriteZero(_) => ErrorKind::WriteZero,
                CodecError::UnexpectedEof(_) => ErrorKind::UnexpectedEof,
                CodecError::InvalidType => ErrorKind::InvalidData,
            },
    {
        match self {
            CodecError::ItemTooLarge => ErrorKind::InvalidInput,
            CodecError::WriteZero(_) => ErrorKind::WriteZero,
            CodecError::UnexpectedEof(_) => ErrorKind::UnexpectedEof,
            CodecError::InvalidType => ErrorKind::InvalidData,
        }
    }

    /// What went wrong, in words.
    pub open spec fn words(self) -> Seq<char> {
        match self {
            CodecError::ItemTooLarge => "item too large for packet-stream-codec"@,
            CodecError::WriteZero(Part::Flags) => "failed to write packet flags"@,
            CodecError::WriteZero(Part::Length) => "failed to write packet length"@,
            CodecError::WriteZero(Part::Id) => "failed to write packet id"@,
            CodecError::WriteZero(Part::Data) => "failed to write packet data"@,
            CodecError::WriteZero(Part::EndOfStream) => "failed to write end-of-stream header"@,
            CodecError::UnexpectedEof(Part::Flags) => "failed to read packet flags"@,
            CodecError::UnexpectedEof(Part::Length) => "failed to read packet length"@,
            CodecError::UnexpectedEof(Part::Id) => "failed to read packet id"@,
            CodecError::UnexpectedEof(_) => "failed to read whole packet content"@,
            CodecError::InvalidType => "read packet with invalid type flag"@,
        }
    }

    /// What went wrong, in words.
    pub fn message(&self) -> (r: &'static str)
        ensures
            r@ == self.words(),
    {
        match self {
            CodecError::ItemTooLarge => "item too large for packet-stream-codec",
            CodecError::WriteZero(Part::Flags) => "failed to write packet flags",
            CodecError::WriteZero(Part::Length) => "failed to write packet length",
            CodecError::WriteZero(Part::Id) => "failed to write packet id",
            CodecError::WriteZero(Part::Data) => "failed to write packet data",
            CodecError::WriteZero(Part::EndOfStream) => "failed to write end-of-stream header",
            CodecError::UnexpectedEof(Part::Flags) => "failed to read packet flags",
            CodecError::UnexpectedEof(Part::Length) => "failed to read packet length",
            CodecError::UnexpectedEof(Part::Id) => "failed to read packet id",
            CodecError::UnexpectedEof(_) => "failed to read whole packet content",
            CodecError::InvalidType => "read packet with invalid type flag",
        }
    }
}

/// The errors with which a call can end. `E` is the error of the wrapped reader
/// or writer.
#[derive(Debug)]
pub enum Error<E> {
    /// An error that the codec found.
    Codec(CodecError),
    /// An error of the wrapped reader or writer, handed on as it came.
    Io(E),
}

/// Whether a call came to its end or has to be made again later.
#[derive(Debug)]
pub enum Async<T> {
    /// The call is complete.
    Ready(T),
    /// The wrapped reader or writer is not ready.
    NotReady,
}

/// Whether an item was accepted.
#[derive(Debug, Copy, Clone, PartialEq, Eq, Structural)]
pub enum AsyncSink {
    /// The item was accepted.
    Ready,
    /// There is no room for the item yet.
    NotReady,
}

/// An operation on the wrapped writer.
#[derive(Debug, Copy, Clone, PartialEq, Eq, Structural)]
pub enum WriterRequest {
    /// Write the bytes that are to be written next.
    Write,
    /// Flush the writer.
    Flush,
    /// Shut the writer down.
    Shutdown,
}

/// What happened since the sink was last asked.
#[derive(Debug)]
pub enum WriterEvent<E> {
    /// A call begins.
    Start,
    /// The writer took this many bytes.
    Wrote(usize),
    /// The writer was flushed.
    Flushed,
    /// The writer was asked to shut down.
    Shutdown(Async<()>),
    /// The operation on the writer failed.
    Failed(ErrorKind, E),
}

/// What is to be done next, or how a call to complete or to close the sink ends.
#[derive(Debug)]
pub enum SinkStep<E> {
    /// Perform this operation and report what happened.
    Request(WriterRequest),
    /// The call is over.
    Done(Result<Async<()>, Error<E>>),
}

/// What is to be done next, or how a call to send an item ends.
#[derive(Debug)]
pub enum SendStep<E> {
    /// Perform this operation and report what happened.
    Request(WriterRequest),
    /// The call is over.
    Done(Result<AsyncSink, Error<E>>),
}

/// What happened since the stream was last asked.
#[derive(Debug)]
pub enum ReaderEvent<'a, E> {
    /// A call begins.
    Start,
    /// The reader delivered these bytes; none if it has come to its end.
    Read(&'a [u8]),
    /// The operation on the reader failed.
    Failed(ErrorKind, E),
}

/// What is to be done next, or how a call to get an item ends.
#[derive(Debug)]
pub enum StreamStep<E> {
    /// Read at most this many bytes and report what happened.
    Read(usize),
    /// The call is over. `None` says that the stream has ended.
    Done(Result<Async<Option<(Box<[u8]>, Metadata)>>, Error<E>>),
}

} // verus!
