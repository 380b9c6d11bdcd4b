//! What every call is answered, and when.
//!
//! Each law speaks of a call: of the arguments, of the result, and of what the call
//! left behind. The numbers are those of the format: the flags are the first byte
//! of a packet, its length the next four, its id the four after that, and the data
//! follows.
use vstd::prelude::*;

use crate::event::{
    Async, AsyncSink, CodecError, Error, ErrorKind, Part, ReaderEvent, SendStep, SinkStep,
    StreamStep, WriterEvent, WriterRequest,
};
use crate::metadata::{
    BeMetadata, Metadata, END, STREAM, TYPE, TYPE_BINARY, TYPE_JSON, TYPE_STRING, TYPE_UNUSED,
};
use crate::sink::{CodecSink, SinkModel};
use crate::stream::{CodecStream, StreamModel};
use crate::wire;

verus! {

/// The number that four bytes from position `i` on stand for.
pub open spec fn number_at(s: Seq<u8>, i: int) -> int {
    s[i] * 16777216 + s[i + 1] * 65536 + s[i + 2] * 256 + s[i + 3]
}

/// Whether a number of 32 bits stands for an id: they differ by nothing or by two
/// to the power of 32.
pub open spec fn stands_for(code: int, id: i32) -> bool {
    code == id || code == id + 4294967296
}

/// Whether the first nine bytes are zeros.
pub open spec fn begins_with_zeros(s: Seq<u8>) -> bool {
    &&& s[0] == 0 && s[1] == 0 && s[2] == 0 && s[3] == 0 && s[4] == 0
    &&& s[5] == 0 && s[6] == 0 && s[7] == 0 && s[8] == 0
}

/// Whether `packet` is made of these: flags, length, id and data.
pub open spec fn made_of(packet: Seq<u8>, data: Seq<u8>, metadata: Metadata) -> bool {
    &&& packet.len() == 9 + data.len()
    &&& packet[0] == metadata.flags
    &&& number_at(packet, 1) == data.len()
    &&& stands_for(number_at(packet, 5), metadata.id)
    &&& forall|i: int| 0 <= i < data.len() ==> #[trigger] data[i] == packet[9 + i]
}

/// Whether a part of a packet ends between the two positions.
pub open spec fn part_ends_between(from: int, to: int) -> bool {
    from < 1 < to || from < 5 < to || from < 9 < to
}

/// Whether `part` is where position `pos` of a packet lies.
pub open spec fn lies_in(pos: int, part: Part) -> bool {
    &&& part == Part::Flags <==> pos == 0
    &&& part == Part::Length <==> 1 <= pos <= 4
    &&& part == Part::Id <==> 5 <= pos <= 8
    &&& part == Part::Data <==> 9 <= pos
}

/// Whether a write of `n` bytes leads from one situation to the other: the packet
/// stays the same, as many bytes of it as were taken are behind, but no more than
/// belong to the part that was written, and after the last one it is done with.
pub open spec fn write_leads_to(before: SinkModel, n: int, after: SinkModel) -> bool {
    match before {
        SinkModel::Sending { packet, pos } => match after {
            SinkModel::Sending { packet: same, pos: next } => {
                &&& same == packet
                &&& pos < next <= pos + n
                &&& next < packet.len()
                &&& next == pos + n || next == 1 || next == 5 || next == 9
                &&& !part_ends_between(pos, next)
            },
            SinkModel::Idle => {
                &&& packet.len() <= pos + n
                &&& !part_ends_between(pos, packet.len() as int)
            },
            _ => false,
        },
        SinkModel::Ending { pos } => match after {
            SinkModel::Ending { pos: next } => next == pos + n && next < 9,
            SinkModel::Shutdown => 9 <= pos + n,
            _ => false,
        },
        _ => false,
    }
}

/// Whether an operation fits the situation: bytes are written while there are some
/// to be written, the writer is flushed when there are none, and shut down after
/// the end of the stream.
pub open spec fn asked_for(model: SinkModel, request: WriterRequest) -> bool {
    &&& request == WriterRequest::Write <==> model is Sending || model is Ending
    &&& request == WriterRequest::Flush <==> model is Idle
    &&& request == WriterRequest::Shutdown <==> model is Shutdown
}

/// Whether the writer failed in a way that is no reason to try again.
pub open spec fn failed_for_good<E>(model: SinkModel, event: WriterEvent<E>) -> bool {
    event matches WriterEvent::Failed(kind, _) && (model is Shutdown || (kind
        != ErrorKind::Interrupted && kind != ErrorKind::WouldBlock))
}

/// Whether the writer said that it is not ready.
pub open spec fn writer_blocks<E>(model: SinkModel, event: WriterEvent<E>) -> bool {
    ||| event matches WriterEvent::Shutdown(Async::NotReady)
    ||| !(model is Shutdown) && (event matches WriterEvent::Failed(ErrorKind::WouldBlock, _))
}

/// Any answer of the writer can be reported while it is owed, and no other: a
/// number of bytes while there are some to be written, a flush when there are
/// none, a shutdown after the end of the stream, and a failure at any time.
pub proof fn law_expected<E>(model: SinkModel, event: WriterEvent<E>)
    ensures
        event is Start || event is Failed ==> model.expects(event),
        event is Wrote ==> (model.expects(event) <==> model is Sending || model is Ending),
        event is Flushed ==> (model.expects(event) <==> model is Idle),
        event is Shutdown ==> (model.expects(event) <==> model is Shutdown),
{
}

/// A sink can be completed and closed at any time, whatever the writer answered to what
/// was asked of it.
pub proof fn law_sink_admits<W, E>(sink: &mut CodecSink<W>, event: WriterEvent<E>)
    requires
        old(sink).wf(),
        event is Wrote ==> old(sink)@ is Sending || old(sink)@ is Ending,
        event is Flushed ==> old(sink)@ is Idle,
        event is Shutdown ==> old(sink)@ is Shutdown,
    ensures
        call_requires(CodecSink::<W>::poll_complete::<E>, (sink, event)),
        call_requires(CodecSink::<W>::close::<E>, (sink, event)),
        call_requires(CodecSink::<W>::next_write, (sink,)),
        call_requires(CodecSink::<W>::writer_mut, (sink,)),
{
}

/// Any item can be sent until the end of the stream begins, whatever the writer answered
/// to what was asked of it.
pub proof fn law_item_admitted<W, E>(
    sink: &mut CodecSink<W>,
    item: &mut Option<(Vec<u8>, Metadata)>,
    event: WriterEvent<E>,
)
    requires
        old(sink).wf(),
        old(sink)@ is Idle || old(sink)@ is Sending,
        event is Start ==> *old(item) is Some,
        event is Wrote ==> old(sink)@ is Sending,
        event is Flushed ==> old(sink)@ is Idle,
        !(event is Shutdown),
    ensures
        call_requires(CodecSink::<W>::start_send::<E>, (sink, item, event)),
{
}

/// A new sink has nothing to be written and keeps the writer as it is.
pub proof fn law_new_sink<W>(writer: W, sink: CodecSink<W>)
    requires
        call_ensures(CodecSink::<W>::new, (writer,), sink),
    ensures
        sink.wf(),
        sink@ is Idle,
        sink.writer() == writer,
{
}

/// The writer that comes out of a sink is the one that it wraps.
pub proof fn law_sink_into_inner<W>(sink: CodecSink<W>, writer: W)
    requires
        call_ensures(CodecSink::<W>::into_inner, (sink,), writer),
    ensures
        writer == sink.writer(),
{
}

/// A sink says that it is closing from the first zero of the header that ends the
/// stream on, and never before.
pub proof fn law_is_closing<W>(sink: CodecSink<W>, closing: bool)
    requires
        call_ensures(CodecSink::<W>::is_closing, (&sink,), closing),
    ensures
        closing <==> sink@ is Ending || sink@ is Shutdown,
{
}

/// Handing out the writer changes nothing of the sink but the writer.
pub proof fn law_writer_mut<W>(sink: &mut CodecSink<W>, writer: &mut W)
    requires
        old(sink).wf(),
        call_ensures(CodecSink::<W>::writer_mut, (sink,), writer),
    ensures
        *old(writer) == old(sink).writer(),
        final(sink)@ == old(sink)@,
        final(sink).writer() == *final(writer),
{
}

/// The bytes that are handed to the writer begin with the first one that has not
/// been written and go up to the end of its part. At the end of the stream they
/// are zeros, and all that are left of nine.
pub proof fn law_next_write<W>(sink: &mut CodecSink<W>, writer: &mut W, bytes: &[u8])
    requires
        old(sink).wf(),
        call_ensures(CodecSink::<W>::next_write, (sink,), (writer, bytes)),
    ensures
        *old(writer) == old(sink).writer(),
        final(sink)@ == old(sink)@,
        final(sink).writer() == *final(writer),
        old(sink)@ matches SinkModel::Sending { packet, pos } ==> {
            let end = pos + bytes@.len();
            &&& 0 <= pos < end <= packet.len()
            &&& forall|i: int| 0 <= i < bytes@.len() ==> #[trigger] bytes@[i] == packet[pos + i]
            &&& end == 1 || end == 5 || end == 9 || end == packet.len()
            &&& !part_ends_between(pos, end)
        },
        old(sink)@ matches SinkModel::Ending { pos } ==> {
            &&& 0 <= pos < 9
            &&& bytes@.len() == 9 - pos
            &&& forall|i: int| 0 <= i < bytes@.len() ==> #[trigger] bytes@[i] == 0
        },
        old(sink)@ is Idle || old(sink)@ is Shutdown ==> bytes@.len() == 0,
{
    old(sink).law_valid();
}

/// A call to complete the sink ends when, and only when, the writer has been
/// flushed, has been shut down, is not ready, has failed or took nothing; and the
/// answer says which. In every other case it asks for what is to be done next: a
/// write that made progress never ends it, and neither does its beginning.
pub proof fn law_poll_complete_answer<W, E>(
    sink: &mut CodecSink<W>,
    event: WriterEvent<E>,
    step: SinkStep<E>,
)
    requires
        old(sink).wf(),
        old(sink)@.expects(event),
        call_ensures(CodecSink::<W>::poll_complete::<E>, (sink, event), step),
    ensures
        (step matches SinkStep::Done(Ok(Async::Ready(_)))) <==> event is Flushed || (
        event matches WriterEvent::Shutdown(Async::Ready(_))),
        (step matches SinkStep::Done(Ok(Async::NotReady))) <==> writer_blocks(old(sink)@, event),
        (step matches SinkStep::Done(Err(Error::Io(_)))) <==> failed_for_good(old(sink)@, event),
        step matches SinkStep::Done(Err(Error::Io(error))) ==> (event matches WriterEvent::Failed(
            _,
            same,
        ) && error == same),
        (step matches SinkStep::Done(Err(Error::Codec(_)))) <==> (event matches WriterEvent::Wrote(n)
            && n == 0),
        step matches SinkStep::Done(Err(Error::Codec(error))) ==> (
        error matches CodecError::WriteZero(part) && match old(sink)@ {
            SinkModel::Sending { packet, pos } => lies_in(pos, part),
            _ => part == Part::EndOfStream,
        }),
        step matches SinkStep::Request(request) ==> asked_for(final(sink)@, request),
        event is Start ==> step is Request,
        event matches WriterEvent::Wrote(n) && n > 0 ==> step is Request,
{
    old(sink).law_valid();
}

/// Only bytes that the writer took change what a sink has to do to be complete,
/// and they change it by as many bytes.
pub proof fn law_poll_complete_effect<W, E>(
    sink: &mut CodecSink<W>,
    event: WriterEvent<E>,
    step: SinkStep<E>,
)
    requires
        old(sink).wf(),
        old(sink)@.expects(event),
        call_ensures(CodecSink::<W>::poll_complete::<E>, (sink, event), step),
    ensures
        final(sink).wf(),
        final(sink).writer() == old(sink).writer(),
        match event {
            WriterEvent::Wrote(n) if n > 0 => write_leads_to(
                old(sink)@,
                n as int,
                final(sink)@,
            ),
            _ => final(sink)@ == old(sink)@,
        },
{
    old(sink).law_valid();
}

/// A call to close the sink ends when, and only when, the writer has been shut
/// down, is not ready, has failed or took nothing; and the answer says which. In
/// every other case it asks for what is to be done next, and a call that begins
/// always does.
pub proof fn law_close_answer<W, E>(
    sink: &mut CodecSink<W>,
    event: WriterEvent<E>,
    step: SinkStep<E>,
)
    requires
        old(sink).wf(),
        old(sink)@.expects(event),
        call_ensures(CodecSink::<W>::close::<E>, (sink, event), step),
    ensures
        (step matches SinkStep::Done(Ok(Async::Ready(_)))) <==> (
        event matches WriterEvent::Shutdown(Async::Ready(_))),
        (step matches SinkStep::Done(Ok(Async::NotReady))) <==> writer_blocks(old(sink)@, event),
        (step matches SinkStep::Done(Err(Error::Io(_)))) <==> failed_for_good(old(sink)@, event),
        step matches SinkStep::Done(Err(Error::Io(error))) ==> (event matches WriterEvent::Failed(
            _,
            same,
        ) && error == same),
        (step matches SinkStep::Done(Err(Error::Codec(_)))) <==> (event matches WriterEvent::Wrote(n)
            && n == 0),
        step matches SinkStep::Done(Err(Error::Codec(error))) ==> (
        error matches CodecError::WriteZero(part) && match old(sink)@ {
            SinkModel::Sending { packet, pos } => lies_in(pos, part),
            _ => part == Part::EndOfStream,
        }),
        step matches SinkStep::Request(request) ==> asked_for(final(sink)@, request),
        event is Start ==> step is Request,
        event matches WriterEvent::Wrote(n) && n > 0 ==> step is Request,
        event is Flushed ==> step is Request,
{
    old(sink).law_valid();
}

/// A call to close the sink begins the header that ends the stream as soon as there
/// is nothing else to be written: at once, or when the writer has been flushed.
/// Apart from that, only bytes that the writer took change anything.
pub proof fn law_close_effect<W, E>(
    sink: &mut CodecSink<W>,
    event: WriterEvent<E>,
    step: SinkStep<E>,
)
    requires
        old(sink).wf(),
        old(sink)@.expects(event),
        call_ensures(CodecSink::<W>::close::<E>, (sink, event), step),
    ensures
        final(sink).wf(),
        final(sink).writer() == old(sink).writer(),
        match event {
            WriterEvent::Wrote(n) if n > 0 => write_leads_to(
                old(sink)@,
                n as int,
                final(sink)@,
            ),
            WriterEvent::Start if old(sink)@ is Idle => final(sink)@ matches SinkModel::Ending {
                pos,
            } && pos == 0,
            WriterEvent::Flushed => final(sink)@ matches SinkModel::Ending { pos } && pos == 0,
            _ => final(sink)@ == old(sink)@,
        },
{
    old(sink).law_valid();
}

/// Whether an item that waits is taken up: there is no packet to be written, and
/// the call begins or the writer has been flushed.
pub open spec fn item_is_due<E>(model: SinkModel, event: WriterEvent<E>) -> bool {
    model is Idle && (event is Start || event is Flushed)
}

/// An item is too large if, and only if, its data is longer than the largest number
/// of 32 bits, and that is said when it is taken up.
pub proof fn law_too_large<W, E>(
    sink: &mut CodecSink<W>,
    item: &mut Option<(Vec<u8>, Metadata)>,
    event: WriterEvent<E>,
    step: SendStep<E>,
)
    requires
        old(sink).wf(),
        old(sink)@ is Idle || old(sink)@ is Sending,
        old(sink)@.expects(event),
        event is Start ==> *old(item) is Some,
        call_ensures(CodecSink::<W>::start_send::<E>, (sink, item, event), step),
    ensures
        (step matches SendStep::Done(Err(Error::Codec(CodecError::ItemTooLarge)))) <==> (
        *old(item) matches Some((data, _)) && item_is_due(old(sink)@, event) && data@.len()
            > 4294967295),
{
    old(sink).law_valid();
}

/// An item that is taken up and is not too large becomes the packet that is
/// written, from its first byte on: it is made of the flags, the length, the id and
/// the data of the item. An item that is too large leaves nothing behind.
pub proof fn law_item_accepted<W, E>(
    sink: &mut CodecSink<W>,
    item: &mut Option<(Vec<u8>, Metadata)>,
    data: Vec<u8>,
    metadata: Metadata,
    event: WriterEvent<E>,
    step: SendStep<E>,
)
    requires
        old(sink).wf(),
        old(sink)@.expects(event),
        *old(item) == Some((data, metadata)),
        item_is_due(old(sink)@, event),
        call_ensures(CodecSink::<W>::start_send::<E>, (sink, item, event), step),
    ensures
        final(sink).wf(),
        final(sink).writer() == old(sink).writer(),
        *final(item) is None,
        data@.len() <= 4294967295 ==> {
            &&& step matches SendStep::Request(WriterRequest::Write)
            &&& final(sink)@ matches SinkModel::Sending { packet, pos }
            &&& pos == 0
            &&& made_of(packet, data@, metadata)
        },
        data@.len() > 4294967295 ==> {
            &&& step matches SendStep::Done(Err(_))
            &&& final(sink)@ is Idle
        },
{
    if data@.len() <= u32::MAX {
        lemma_made_of(data@, metadata);
    }
}

/// An encoded packet is made of what was encoded.
proof fn lemma_made_of(data: Seq<u8>, metadata: Metadata)
    requires
        data.len() <= u32::MAX,
    ensures
        made_of(wire::encode(data, metadata), data, metadata),
{
    let packet = wire::encode(data, metadata);
    let len = data.len() as int;
    let code = wire::id_code(metadata.id);
    wire::law_id_code(metadata.id, code);
    wire::law_be_bytes(len, wire::be_bytes(len));
    wire::law_be_bytes(code, wire::be_bytes(code));
    assert(packet.subrange(1, 5) =~= wire::be_bytes(len));
    assert(packet.subrange(5, 9) =~= wire::be_bytes(code));
}

/// Until an item is taken up, and after that, sending it is completing the packet
/// that is written: the call ends when, and only when, the writer has been flushed,
/// is not ready, has failed or took nothing. An item that was taken up is ready
/// even if the writer is not; one that was not is given back.
pub proof fn law_start_send_answer<W, E>(
    sink: &mut CodecSink<W>,
    item: &mut Option<(Vec<u8>, Metadata)>,
    event: WriterEvent<E>,
    step: SendStep<E>,
)
    requires
        old(sink).wf(),
        old(sink)@ is Idle || old(sink)@ is Sending,
        old(sink)@.expects(event),
        event is Start ==> *old(item) is Some,
        !(*old(item) is Some && item_is_due(old(sink)@, event)),
        call_ensures(CodecSink::<W>::start_send::<E>, (sink, item, event), step),
    ensures
        (step matches SendStep::Done(Ok(AsyncSink::Ready))) <==> *old(item) is None && (
        event is Flushed || writer_blocks(old(sink)@, event)),
        (step matches SendStep::Done(Ok(AsyncSink::NotReady))) <==> *old(item) is Some
            && writer_blocks(old(sink)@, event),
        (step matches SendStep::Done(Err(Error::Io(_)))) <==> failed_for_good(old(sink)@, event),
        step matches SendStep::Done(Err(Error::Io(error))) ==> (event matches WriterEvent::Failed(
            _,
            same,
        ) && error == same),
        (step matches SendStep::Done(Err(Error::Codec(_)))) <==> (event matches WriterEvent::Wrote(n)
            && n == 0),
        step matches SendStep::Done(Err(Error::Codec(error))) ==> (
        error matches CodecError::WriteZero(part) && (
        old(sink)@ matches SinkModel::Sending { packet, pos } && lies_in(pos, part))),
        step matches SendStep::Request(request) ==> asked_for(final(sink)@, request),
        event is Start ==> step is Request,
        event matches WriterEvent::Wrote(n) && n > 0 ==> step is Request,
{
    old(sink).law_valid();
}

/// Until an item is taken up, and after that, only bytes that the writer took change
/// anything; and the item stays what it was unless the call fails.
pub proof fn law_start_send_effect<W, E>(
    sink: &mut CodecSink<W>,
    item: &mut Option<(Vec<u8>, Metadata)>,
    event: WriterEvent<E>,
    step: SendStep<E>,
)
    requires
        old(sink).wf(),
        old(sink)@ is Idle || old(sink)@ is Sending,
        old(sink)@.expects(event),
        event is Start ==> *old(item) is Some,
        !(*old(item) is Some && item_is_due(old(sink)@, event)),
        call_ensures(CodecSink::<W>::start_send::<E>, (sink, item, event), step),
    ensures
        final(sink).wf(),
        final(sink).writer() == old(sink).writer(),
        match event {
            WriterEvent::Wrote(n) if n > 0 => write_leads_to(
                old(sink)@,
                n as int,
                final(sink)@,
            ),
            _ => final(sink)@ == old(sink)@,
        },
        (step matches SendStep::Done(Err(_))) ==> *final(item) is None,
        !(step matches SendStep::Done(Err(_))) ==> *final(item) == *old(item),
{
    old(sink).law_valid();
}

/// A new stream has read nothing and keeps the reader as it is.
pub proof fn law_new_stream<R>(reader: R, stream: CodecStream<R>)
    requires
        call_ensures(CodecStream::<R>::new, (reader,), stream),
    ensures
        stream.wf(),
        stream@ matches StreamModel::Reading { seen } && seen.len() == 0,
        stream.reader() == reader,
{
}

/// The reader that comes out of a stream is the one that it wraps.
pub proof fn law_stream_into_inner<R>(stream: CodecStream<R>, reader: R)
    requires
        call_ensures(CodecStream::<R>::into_inner, (stream,), reader),
    ensures
        reader == stream.reader(),
{
}

/// A stream says that it has failed if data was lost, and only then.
pub proof fn law_has_failed<R>(stream: CodecStream<R>, failed: bool)
    requires
        call_ensures(CodecStream::<R>::has_failed, (&stream,), failed),
    ensures
        failed <==> stream@ is Failed,
{
}

/// Handing out the reader changes nothing of the stream but the reader.
pub proof fn law_reader_mut<R>(stream: &mut CodecStream<R>, reader: &mut R)
    requires
        old(stream).wf(),
        call_ensures(CodecStream::<R>::reader_mut, (stream,), reader),
    ensures
        *old(reader) == old(stream).reader(),
        final(stream)@ == old(stream)@,
        final(stream).reader() == *final(reader),
{
}

/// Whether `n` bytes are what the current part of a packet lacks, when `seen` has
/// been read of it.
pub open spec fn lacks(seen: Seq<u8>, n: int) -> bool {
    let end = seen.len() + n;
    &&& n > 0
    &&& seen.len() < 1 ==> end == 1
    &&& 1 <= seen.len() < 5 ==> end == 5
    &&& 5 <= seen.len() < 9 ==> end == 9
    &&& 9 <= seen.len() ==> end == 9 + number_at(seen, 1)
}

/// What a stream has read of a packet is never a whole one, does not have the unused
/// type, and is not the end of the stream.
pub proof fn law_seen<R>(stream: CodecStream<R>)
    requires
        stream.wf(),
    ensures
        stream@ matches StreamModel::Reading { seen } ==> {
            &&& seen.len() > 0 ==> seen[0] % 4 != 3
            &&& seen.len() >= 9 ==> !begins_with_zeros(seen) && seen.len() < 9 + number_at(seen, 1)
        },
{
    stream.law_valid();
    if let StreamModel::Reading { seen } = stream@ {
        lemma_zeros(seen);
        lemma_number_at(seen);
    }
}

/// Nine zeros are the header that ends the stream.
proof fn lemma_zeros(s: Seq<u8>)
    ensures
        s.len() >= 9 ==> (begins_with_zeros(s) <==> s.take(9) == wire::end_header()),
{
    if s.len() >= 9 {
        let h = s.take(9);
        assert(h[0] == s[0] && h[1] == s[1] && h[2] == s[2] && h[3] == s[3] && h[4] == s[4]);
        assert(h[5] == s[5] && h[6] == s[6] && h[7] == s[7] && h[8] == s[8]);
        if begins_with_zeros(s) {
            assert(h =~= wire::end_header());
        }
    }
}

/// The length of the data is the number in the second to fifth byte, and the id
/// stands in the four after them.
proof fn lemma_number_at(s: Seq<u8>)
    ensures
        s.len() >= 9 ==> {
            &&& wire::length_of(s) == number_at(s, 1)
            &&& 0 <= number_at(s, 1) <= 4294967295
            &&& stands_for(number_at(s, 5), wire::metadata_of(s).id)
            &&& wire::metadata_of(s).flags == s[0]
        },
{
    if s.len() >= 9 {
        wire::law_id_code(0, wire::be_value(s.subrange(5, 9)));
    }
}

/// A stream that has not failed can be asked for the next item at any time, whatever the
/// reader answered to what was asked of it.
pub proof fn law_stream_admits<R, E>(stream: &mut CodecStream<R>, event: ReaderEvent<'_, E>)
    requires
        old(stream).wf(),
        old(stream)@ is Reading || (old(stream)@ is Ended && event is Start),
    ensures
        call_requires(CodecStream::<R>::poll::<E>, (stream, event)),
        call_requires(CodecStream::<R>::reader_mut, (stream,)),
{
}

/// A stream that is asked without news from the reader, or that is told that the
/// reader was interrupted, asks for what the current part lacks; at the end of the
/// stream it says so. Nothing changes.
pub proof fn law_poll_asks<R, E>(
    stream: &mut CodecStream<R>,
    event: ReaderEvent<'_, E>,
    step: StreamStep<E>,
)
    requires
        old(stream).wf(),
        !(old(stream)@ is Failed),
        old(stream)@ is Ended ==> event is Start,
        event is Start || (event matches ReaderEvent::Failed(ErrorKind::Interrupted, _)),
        call_ensures(CodecStream::<R>::poll::<E>, (stream, event), step),
    ensures
        final(stream).wf(),
        final(stream).reader() == old(stream).reader(),
        final(stream)@ == old(stream)@,
        old(stream)@ matches StreamModel::Reading { seen } ==> (step matches StreamStep::Read(n)
            && lacks(seen, n as int)),
        old(stream)@ is Ended ==> (step matches StreamStep::Done(Ok(Async::Ready(None)))),
{
    law_seen(*old(stream));
    old(stream).law_valid();
    if let StreamModel::Reading { seen } = old(stream)@ {
        lemma_number_at(seen);
    }
}

/// A reader that is not ready, fails or has come to its end is reported as that. The
/// data of a packet is then lost, unless the reader was only not ready; the header
/// of a packet never is.
pub proof fn law_poll_fails<R, E>(
    stream: &mut CodecStream<R>,
    event: ReaderEvent<'_, E>,
    step: StreamStep<E>,
)
    requires
        old(stream).wf(),
        old(stream)@ is Reading,
        match event {
            ReaderEvent::Start => false,
            ReaderEvent::Read(bytes) => bytes@.len() == 0,
            ReaderEvent::Failed(kind, _) => kind != ErrorKind::Interrupted,
        },
        call_ensures(CodecStream::<R>::poll::<E>, (stream, event), step),
    ensures
        final(stream).wf(),
        final(stream).reader() == old(stream).reader(),
        match event {
            ReaderEvent::Failed(kind, error) => if kind == ErrorKind::WouldBlock {
                step matches StreamStep::Done(Ok(Async::NotReady))
            } else {
                step matches StreamStep::Done(Err(Error::Io(same))) && same == error
            },
            _ => step matches StreamStep::Done(Err(Error::Codec(CodecError::UnexpectedEof(part))))
                && lies_in(old(stream)@->seen.len() as int, part),
        },
        if old(stream)@->seen.len() < 9 || (event matches ReaderEvent::Failed(
            ErrorKind::WouldBlock,
            _,
        )) {
            final(stream)@ == old(stream)@
        } else {
            final(stream)@ is Failed
        },
{
}

/// Bytes that are delivered are added to what has been read of the packet, and the
/// answer follows from all of it, `read`: a packet with the unused type is refused;
/// nine zeros end the stream, and nothing else does; a whole packet is yielded, with
/// the flags, the id and the data that it says; and before that what the next part
/// lacks is asked for.
pub proof fn law_poll_reads<R, E>(
    stream: &mut CodecStream<R>,
    bytes: &[u8],
    lack: int,
    step: StreamStep<E>,
)
    requires
        old(stream).wf(),
        old(stream)@ is Reading,
        bytes@.len() > 0,
        lacks(old(stream)@->seen, lack),
        call_ensures(CodecStream::<R>::poll::<E>, (stream, ReaderEvent::Read(bytes)), step),
    ensures
        final(stream).wf(),
        final(stream).reader() == old(stream).reader(),
        ({
            let read = old(stream)@->seen + (if bytes@.len() <= lack {
                bytes@
            } else {
                bytes@.take(lack)
            });
            let whole = read.len() >= 9 && read.len() == 9 + number_at(read, 1);
            let ends = read.len() >= 9 && begins_with_zeros(read);
            let refused = read[0] % 4 == 3;
            &&& (step matches StreamStep::Done(Err(_))) <==> refused
            &&& step matches StreamStep::Done(Err(error)) ==> (error matches Error::Codec(
                CodecError::InvalidType,
            ))
            &&& (step matches StreamStep::Done(Ok(Async::Ready(None)))) <==> ends
            &&& final(stream)@ is Ended <==> ends
            &&& (step matches StreamStep::Done(Ok(Async::Ready(Some(_))))) <==> whole && !ends
                && !refused
            &&& step matches StreamStep::Done(Ok(Async::Ready(Some((data, metadata)))))
                ==> made_of(read, data@, metadata)
            &&& (step matches StreamStep::Read(_)) <==> !whole && !ends && !refused
            &&& step matches StreamStep::Read(n) ==> lacks(read, n as int)
            &&& step is Read ==> final(stream)@ == (StreamModel::Reading { seen: read })
            &&& !(step is Read) && !ends ==> (final(stream)@ matches StreamModel::Reading { seen }
                && seen.len() == 0)
        }),
{
    let seen = old(stream)@->seen;
    let took = if bytes@.len() <= lack {
        bytes@
    } else {
        bytes@.take(lack)
    };
    let read = seen + took;
    old(stream).law_valid();
    lemma_number_at(seen);
    lemma_zeros(seen);
    lemma_number_at(read);
    lemma_zeros(read);
    assert(bytes@.take(bytes@.len() as int) =~= bytes@);
    if seen.len() >= 9 {
        assert(read.take(9) =~= seen.take(9));
    }
    if read.len() >= 9 && read.len() == 9 + number_at(read, 1) {
        assert(read.skip(9).len() == number_at(read, 1));
        assert(forall|i: int|
            0 <= i < read.skip(9).len() ==> #[trigger] read.skip(9)[i] == read[9 + i]);
    }
}

/// A number is split into four bytes that stand for it, most significant first.
pub proof fn law_u32_to_be_bytes(n: u32, bytes: [u8; 4])
    requires
        call_ensures(wire::u32_to_be_bytes, (n,), bytes),
    ensures
        number_at(bytes@, 0) == n,
{
    wire::law_be_bytes(n as int, bytes@);
}

/// Four bytes are put together to the number that they stand for.
pub proof fn law_u32_from_be_bytes(bytes: [u8; 4], n: u32)
    requires
        call_ensures(wire::u32_from_be_bytes, (bytes,), n),
    ensures
        n == number_at(bytes@, 0),
{
}

/// An id is split into four bytes that stand for it, most significant first.
pub proof fn law_id_to_be_bytes(id: i32, bytes: [u8; 4])
    requires
        call_ensures(wire::id_to_be_bytes, (id,), bytes),
    ensures
        stands_for(number_at(bytes@, 0), id),
{
    wire::law_id_code(id, 0);
    wire::law_be_bytes(wire::id_code(id), bytes@);
}

/// Four bytes are put together to the id that they stand for.
pub proof fn law_id_from_be_bytes(bytes: [u8; 4], id: i32)
    requires
        call_ensures(wire::id_from_be_bytes, (bytes,), id),
    ensures
        stands_for(number_at(bytes@, 0), id),
{
}

/// In network byte order the flags are the same, and the bytes of the id stand for it.
pub proof fn law_to_be(metadata: Metadata, be: BeMetadata)
    requires
        call_ensures(Metadata::to_be, (metadata,), be),
    ensures
        be.flags == metadata.flags,
        stands_for(number_at(be.id@, 0), metadata.id),
{
    wire::law_id_code(metadata.id, 0);
    wire::law_be_bytes(wire::id_code(metadata.id), be.id@);
}

/// The masks do not overlap, and together they are the four lowest bits; the values
/// of the type are the four that its mask leaves.
pub proof fn law_masks()
    ensures
        STREAM == 8,
        END == 4,
        TYPE == 3,
        TYPE_BINARY == 0,
        TYPE_STRING == 1,
        TYPE_JSON == 2,
        TYPE_UNUSED == 3,
{
}

/// The stream flag decides alone whether a packet is a stream packet: so of two packets
/// that agree in it, both are or neither is, whatever their other flags; with the flag
/// set a packet is one, and with the flag cleared it is not.
pub proof fn law_is_stream_packet(metadata: Metadata, r: bool, other: Metadata, s: bool)
    requires
        call_ensures(Metadata::is_stream_packet, (&metadata,), r),
        call_ensures(Metadata::is_stream_packet, (&other,), s),
    ensures
        r <==> metadata.flags & STREAM != 0,
        metadata.flags & STREAM == other.flags & STREAM ==> r == s,
        other.flags == metadata.flags | STREAM ==> s,
        other.flags == metadata.flags & !STREAM ==> !s,
{
    let f = metadata.flags;
    let g = other.flags;
    assert((f & 8 != 0) == (f / 8 % 2 == 1)) by (bit_vector);
    assert((g & 8 != 0) == (g / 8 % 2 == 1)) by (bit_vector);
    assert((f | 8) & 8 != 0 && (f & !8) & 8 == 0) by (bit_vector);
}

/// The end flag decides alone whether a packet is an end packet: so of two packets
/// that agree in it, both are or neither is, whatever their other flags; with the flag
/// set a packet is one, and with the flag cleared it is not.
pub proof fn law_is_end_packet(metadata: Metadata, r: bool, other: Metadata, s: bool)
    requires
        call_ensures(Metadata::is_end_packet, (&metadata,), r),
        call_ensures(Metadata::is_end_packet, (&other,), s),
    ensures
        r <==> metadata.flags & END != 0,
        metadata.flags & END == other.flags & END ==> r == s,
        other.flags == metadata.flags | END ==> s,
        other.flags == metadata.flags & !END ==> !s,
{
    let f = metadata.flags;
    let g = other.flags;
    assert((f & 4 != 0) == (f / 4 % 2 == 1)) by (bit_vector);
    assert((g & 4 != 0) == (g / 4 % 2 == 1)) by (bit_vector);
    assert((f | 4) & 4 != 0 && (f & !4) & 4 == 0) by (bit_vector);
}

/// The type flags decide alone of which type a packet is, and it is of exactly one.
pub proof fn law_type_of_packet(
    metadata: Metadata,
    binary: bool,
    string: bool,
    json: bool,
    unused: bool,
)
    requires
        call_ensures(Metadata::is_buffer_packet, (&metadata,), binary),
        call_ensures(Metadata::is_string_packet, (&metadata,), string),
        call_ensures(Metadata::is_json_packet, (&metadata,), json),
        call_ensures(Metadata::is_unused_packet, (&metadata,), unused),
    ensures
        binary <==> metadata.flags & TYPE == TYPE_BINARY,
        string <==> metadata.flags & TYPE == TYPE_STRING,
        json <==> metadata.flags & TYPE == TYPE_JSON,
        unused <==> metadata.flags & TYPE == TYPE_UNUSED,
        unused <==> !binary && !string && !json,
{
    let f = metadata.flags;
    assert(f & 3 == f % 4) by (bit_vector);
}

/// Errors of one kind are of one sort: the kind tells whether an item was too large, a
/// write took nothing, the reader came to its end, or a type was invalid.
pub proof fn law_kind(error: CodecError, kind: ErrorKind)
    requires
        call_ensures(CodecError::kind, (&error,), kind),
    ensures
        kind == ErrorKind::InvalidInput <==> error is ItemTooLarge,
        kind == ErrorKind::WriteZero <==> error is WriteZero,
        kind == ErrorKind::UnexpectedEof <==> error is UnexpectedEof,
        kind == ErrorKind::InvalidData <==> error is InvalidType,
{
}

/// The message of an error says what failed, and on which part of a packet.
pub proof fn law_message(error: CodecError, message: &'static str)
    requires
        call_ensures(CodecError::message, (&error,), message),
    ensures
        match error {
            CodecError::ItemTooLarge => message@ == "item too large for packet-stream-codec"@,
            CodecError::InvalidType => message@ == "read packet with invalid type flag"@,
            CodecError::WriteZero(part) => message@ == "failed to write "@ + match part {
                Part::Flags => "packet flags"@,
                Part::Length => "packet length"@,
                Part::Id => "packet id"@,
                Part::Data => "packet data"@,
                Part::EndOfStream => "end-of-stream header"@,
            },
            CodecError::UnexpectedEof(part) => message@ == "failed to read "@ + match part {
                Part::Flags => "packet flags"@,
                Part::Length => "packet length"@,
                Part::Id => "packet id"@,
                _ => "whole packet content"@,
            },
        },
{
    reveal_strlit("failed to write ");
    reveal_strlit("failed to read ");
    reveal_strlit("packet flags");
    reveal_strlit("packet length");
    reveal_strlit("packet id");
    reveal_strlit("packet data");
    reveal_strlit("end-of-stream header");
    reveal_strlit("whole packet content");
    reveal_strlit("failed to write packet flags");
    reveal_strlit("failed to write packet length");
    reveal_strlit("failed to write packet id");
    reveal_strlit("failed to write packet data");
    reveal_strlit("failed to write end-of-stream header");
    reveal_strlit("failed to read packet flags");
    reveal_strlit("failed to read packet length");
    reveal_strlit("failed to read packet id");
    reveal_strlit("failed to read whole packet content");
    match error {
        CodecError::WriteZero(Part::Flags) => {
            assert(message@ =~= "failed to write "@ + "packet flags"@);
        },
        CodecError::WriteZero(Part::Length) => {
            assert(message@ =~= "failed to write "@ + "packet length"@);
        },
        CodecError::WriteZero(Part::Id) => {
            assert(message@ =~= "failed to write "@ + "packet id"@);
        },
        CodecError::WriteZero(Part::Data) => {
            assert(message@ =~= "failed to write "@ + "packet data"@);
        },
        CodecError::WriteZero(Part::EndOfStream) => {
            assert(message@ =~= "failed to write "@ + "end-of-stream header"@);
        },
        CodecError::UnexpectedEof(Part::Flags) => {
            assert(message@ =~= "failed to read "@ + "packet flags"@);
        },
        CodecError::UnexpectedEof(Part::Length) => {
            assert(message@ =~= "failed to read "@ + "packet length"@);
        },
        CodecError::UnexpectedEof(Part::Id) => {
            assert(message@ =~= "failed to read "@ + "packet id"@);
        },
        CodecError::UnexpectedEof(_) => {
            assert(message@ =~= "failed to read "@ + "whole packet content"@);
        },
        _ => {},
    }
}

} // verus!
