//! What holds of the codec as a whole: whatever is sent arrives, in whatever
//! pieces it is written and read, and however often reader and writer block or
//! are interrupted.
use vstd::prelude::*;

use crate::event::{
    Async, CodecError, Error, ErrorKind, SinkStep, WriterEvent, WriterRequest,
};
use crate::metadata::{Metadata, TYPE_UNUSED};
use crate::sink::SinkModel;
use crate::stream::{ReaderInput, StreamModel, StreamReply};
use crate::{stream, wire};

verus! {

/// The bytes of several packets, one after the other.
pub open spec fn encode_all(items: Seq<(Seq<u8>, Metadata)>) -> Seq<u8>
    decreases items.len(),
{
    if items.len() == 0 {
        Seq::empty()
    } else {
        encode_all(items.drop_last()) + wire::encode(items.last().0, items.last().1)
    }
}

/// Whether every item can be told from the end of the stream and from a
/// malformed packet.
pub open spec fn all_transmissible(items: Seq<(Seq<u8>, Metadata)>) -> bool {
    forall|i: int|
        0 <= i < items.len() ==> wire::transmissible((#[trigger] items[i]).0, items[i].1)
}

/// A call of one of the functions of a sink.
pub enum SinkCall {
    /// `start_send`, with the item that waits.
    Send(Option<(Seq<u8>, Metadata)>),
    /// `poll_complete`.
    Complete,
    /// `close`.
    Close,
}

/// What has become of a sink.
pub struct SinkRun {
    /// What the sink is doing.
    pub model: SinkModel,
    /// The bytes that the writer has taken.
    pub written: Seq<u8>,
    /// The items that the sink has accepted.
    pub accepted: Seq<(Seq<u8>, Metadata)>,
}

impl SinkRun {
    /// Whether this call can be made with this event: `start_send` is not called
    /// after `close`, and the writer takes no more than it was handed.
    pub open spec fn allows<E>(self, call: SinkCall, event: WriterEvent<E>) -> bool {
        &&& self.model.expects(event)
        &&& call is Send ==> !self.model.closing()
        &&& event matches WriterEvent::Wrote(n) ==> n <= self.model.chunk().len()
    }

    /// What becomes of the sink by a call.
    pub open spec fn step<E>(self, call: SinkCall, event: WriterEvent<E>) -> SinkRun {
        SinkRun {
            model: match call {
                SinkCall::Send(item) => self.model.after_send(item, event).0,
                SinkCall::Complete => self.model.after_complete(event).0,
                SinkCall::Close => self.model.after_close(event).0,
            },
            written: match event {
                WriterEvent::Wrote(n) => self.written + self.model.chunk().take(n as int),
                _ => self.written,
            },
            accepted: match call {
                SinkCall::Send(Some((data, metadata))) if self.model.makes_room(event)
                    && data.len() <= u32::MAX => self.accepted.push((data, metadata)),
                _ => self.accepted,
            },
        }
    }
}

/// What becomes of a new sink by a sequence of calls.
pub open spec fn sink_run<E>(calls: Seq<(SinkCall, WriterEvent<E>)>) -> SinkRun
    decreases calls.len(),
{
    if calls.len() == 0 {
        SinkRun { model: SinkModel::Idle, written: Seq::empty(), accepted: Seq::empty() }
    } else {
        sink_run(calls.drop_last()).step(calls.last().0, calls.last().1)
    }
}

/// Whether a sequence of calls can be made, one after the other.
pub open spec fn sink_allows<E>(calls: Seq<(SinkCall, WriterEvent<E>)>) -> bool
    decreases calls.len(),
{
    calls.len() > 0 ==> {
        &&& sink_allows(calls.drop_last())
        &&& sink_run(calls.drop_last()).allows(calls.last().0, calls.last().1)
    }
}

/// As long as a sink asks for a write, it has bytes for it, and they are the
/// first of those that are still to be written.
pub proof fn law_chunk(model: SinkModel)
    requires
        model.valid(),
        model.request() == WriterRequest::Write,
    ensures
        model.chunk().len() > 0,
        model.chunk() == model.pending().take(model.chunk().len() as int),
{
    match model {
        SinkModel::Sending { packet, pos } => {
            let end = wire::part_end(pos, packet.len() as int);
            assert(packet.subrange(pos, end) =~= packet.skip(pos).take(end - pos));
        },
        SinkModel::Ending { pos } => {
            let rest = wire::end_header().skip(pos);
            assert(rest =~= rest.take(rest.len() as int));
        },
        _ => {},
    }
}

/// When the writer takes some of the bytes that it was handed, those and no
/// others are no longer to be written. So every byte that it takes brings the
/// sink closer to its goal.
pub proof fn law_wrote(model: SinkModel, n: int)
    requires
        model.valid(),
        model.request() == WriterRequest::Write,
        0 <= n <= model.chunk().len(),
    ensures
        model.wrote(n).valid(),
        model.chunk().take(n) + model.wrote(n).pending() == model.pending(),
        model.wrote(n).pending().len() == model.pending().len() - n,
        model.closing() == model.wrote(n).closing(),
{
    law_chunk(model);
    match model {
        SinkModel::Sending { packet, pos } => {
            assert(model.chunk().take(n) + packet.skip(pos + n) =~= model.pending());
            if pos + n == packet.len() {
                assert(packet.skip(pos + n) =~= Seq::<u8>::empty());
            }
        },
        SinkModel::Ending { pos } => {
            assert(model.chunk().take(n) + wire::end_header().skip(pos + n) =~= model.pending());
            if pos + n == 9 {
                assert(wire::end_header().skip(pos + n) =~= Seq::<u8>::empty());
            }
        },
        _ => {},
    }
}

/// An operation of the writer that blocked or was interrupted changes nothing: no
/// byte is lost and none is written twice.
pub proof fn law_sink_retry<E>(model: SinkModel, kind: ErrorKind, error: E)
    requires
        kind == ErrorKind::Interrupted || kind == ErrorKind::WouldBlock,
    ensures
        model.after_complete(WriterEvent::Failed(kind, error)).0 == model,
        model.after_close(WriterEvent::Failed(kind, error)).0 == model,
        forall|item: Option<(Seq<u8>, Metadata)>|
            (#[trigger] model.after_send(item, WriterEvent::Failed(kind, error))).0 == model,
{
}

/// Once the end of the stream has begun, completing and closing are the same.
pub proof fn law_complete_after_close<E>(model: SinkModel, event: WriterEvent<E>)
    requires
        model.closing(),
    ensures
        model.after_complete(event) == model.after_close(event),
{
}

/// Completing is ready only when nothing is left to be written and the writer has
/// been flushed, or, once the end of the stream has begun, when the writer has been
/// shut down.
pub proof fn law_complete_ready<E>(model: SinkModel, event: WriterEvent<E>)
    requires
        model.valid(),
        model.expects(event),
        model.after_complete(event).1 == SinkStep::<E>::Done(Ok(Async::Ready(()))),
    ensures
        model.after_complete(event).0 == model,
        model.pending().len() == 0,
        model is Idle && event is Flushed || model is Shutdown && event
            == WriterEvent::<E>::Shutdown(Async::Ready(())),
{
}

/// Closing is ready only when everything has been written, with the header that
/// ends the stream, and the writer has been shut down.
pub proof fn law_close_ready<E>(model: SinkModel, event: WriterEvent<E>)
    requires
        model.valid(),
        model.expects(event),
        model.after_close(event).1 == SinkStep::<E>::Done(Ok(Async::Ready(()))),
    ensures
        model is Shutdown,
        model.after_close(event).0 is Shutdown,
        event == WriterEvent::<E>::Shutdown(Async::Ready(())),
{
}

/// What the writer has taken and what is still to be written are together the
/// packets of the items that were accepted, in their order, and then, if `close`
/// has gone that far, the header that ends the stream.
pub proof fn law_sink_run<E>(calls: Seq<(SinkCall, WriterEvent<E>)>)
    requires
        sink_allows(calls),
    ensures
        sink_run(calls).model.valid(),
        sink_run(calls).written + sink_run(calls).model.pending() == encode_all(
            sink_run(calls).accepted,
        ) + (if sink_run(calls).model.closing() {
            wire::end_header()
        } else {
            Seq::empty()
        }),
    decreases calls.len(),
{
    if calls.len() > 0 {
        let before = sink_run(calls.drop_last());
        let (call, event) = calls.last();
        law_sink_run(calls.drop_last());
        lemma_sink_step(before, call, event);
    }
}

/// The bytes that a sink owes for what it has accepted.
spec fn owed(run: SinkRun) -> Seq<u8> {
    encode_all(run.accepted) + (if run.model.closing() {
        wire::end_header()
    } else {
        Seq::empty()
    })
}

/// A single call keeps the balance of `law_sink_run`.
proof fn lemma_sink_step<E>(run: SinkRun, call: SinkCall, event: WriterEvent<E>)
    requires
        run.model.valid(),
        run.written + run.model.pending() == owed(run),
        run.allows(call, event),
    ensures
        run.step(call, event).model.valid(),
        run.step(call, event).written + run.step(call, event).model.pending() == owed(
            run.step(call, event),
        ),
{
    let next = run.step(call, event);
    let none = Seq::<u8>::empty();
    if let WriterEvent::Wrote(n) = event {
        law_wrote(run.model, n as int);
        assert(run.written + run.model.chunk().take(n as int) + run.model.wrote(n as int).pending()
            =~= run.written + run.model.pending());
        if n == 0 {
            assert(run.model.chunk().take(0) =~= none);
            assert(run.written + none =~= run.written);
        }
    }
    match call {
        SinkCall::Send(Some((data, metadata))) if run.model.makes_room(event) => {
            assert(run.model is Idle);
            assert(run.written + none =~= run.written);
            assert(encode_all(run.accepted) + none =~= encode_all(run.accepted));
            if data.len() <= u32::MAX {
                let packet = wire::encode(data, metadata);
                assert(next.accepted.drop_last() =~= run.accepted);
                assert(packet.skip(0) =~= packet);
                assert(owed(next) =~= encode_all(run.accepted) + packet);
                assert(next.written + next.model.pending() =~= owed(next));
            }
        },
        SinkCall::Close if !run.model.closing() && next.model.closing() => {
            assert(run.model is Idle);
            assert(run.written + none =~= run.written);
            assert(encode_all(run.accepted) + none =~= encode_all(run.accepted));
            assert(wire::end_header().skip(0) =~= wire::end_header());
        },
        _ => {},
    }
}

/// A sink with nothing left to be written has written exactly the packets of the
/// items that it has accepted; one that has been closed has written the header
/// that ends the stream after them.
pub proof fn law_sink_complete<E>(calls: Seq<(SinkCall, WriterEvent<E>)>)
    requires
        sink_allows(calls),
    ensures
        sink_run(calls).model is Idle ==> sink_run(calls).written == encode_all(
            sink_run(calls).accepted,
        ),
        sink_run(calls).model is Shutdown ==> sink_run(calls).written == encode_all(
            sink_run(calls).accepted,
        ) + wire::end_header(),
{
    let run = sink_run(calls);
    let none = Seq::<u8>::empty();
    law_sink_run(calls);
    assert(run.written + none =~= run.written);
    assert(encode_all(run.accepted) + none =~= encode_all(run.accepted));
}

/// What has become of a stream.
pub struct StreamRun {
    /// What the stream is doing.
    pub model: StreamModel,
    /// The bytes that the stream has taken from the reader.
    pub consumed: Seq<u8>,
    /// The items that the stream has yielded.
    pub items: Seq<(Seq<u8>, Metadata)>,
    /// Whether no packet was malformed.
    pub clean: bool,
}

impl StreamRun {
    /// Whether `poll` can be called with this input and goes on afterwards: the
    /// reader delivers no more than it was asked for, and no data is lost.
    pub open spec fn allows<E>(self, input: ReaderInput<E>) -> bool {
        &&& self.model.expects(input)
        &&& !(self.model.after_poll(input).0 is Failed)
        &&& input matches ReaderInput::Read(bytes) ==> bytes.len() <= stream::missing(
            self.model->seen,
        )
    }

    /// What becomes of the stream by a call.
    pub open spec fn step<E>(self, input: ReaderInput<E>) -> StreamRun {
        let (model, reply) = self.model.after_poll(input);
        StreamRun {
            model,
            consumed: match input {
                ReaderInput::Read(bytes) => self.consumed + bytes,
                _ => self.consumed,
            },
            items: match reply {
                StreamReply::Item(data, metadata) => self.items.push((data, metadata)),
                _ => self.items,
            },
            clean: self.clean && reply != StreamReply::<E>::Error(
                Error::Codec(CodecError::InvalidType),
            ),
        }
    }
}

/// What becomes of a new stream by a sequence of calls of `poll`.
pub open spec fn stream_run<E>(inputs: Seq<ReaderInput<E>>) -> StreamRun
    decreases inputs.len(),
{
    if inputs.len() == 0 {
        StreamRun {
            model: StreamModel::Reading { seen: Seq::empty() },
            consumed: Seq::empty(),
            items: Seq::empty(),
            clean: true,
        }
    } else {
        stream_run(inputs.drop_last()).step(inputs.last())
    }
}

/// Whether a sequence of calls can be made, one after the other.
pub open spec fn stream_allows<E>(inputs: Seq<ReaderInput<E>>) -> bool
    decreases inputs.len(),
{
    inputs.len() > 0 ==> {
        &&& stream_allows(inputs.drop_last())
        &&& stream_run(inputs.drop_last()).allows(inputs.last())
    }
}

/// What has been read of the stream since the last item.
pub open spec fn begun(model: StreamModel) -> Seq<u8> {
    match model {
        StreamModel::Reading { seen } => seen,
        StreamModel::Ended => wire::end_header(),
        StreamModel::Failed => Seq::empty(),
    }
}

/// A stream that asks for bytes asks for at least one.
pub proof fn law_missing(seen: Seq<u8>)
    requires
        (StreamModel::Reading { seen }).valid(),
    ensures
        stream::missing(seen) > 0,
{
}

/// It makes no difference whether the bytes that the stream asks for are
/// delivered at once or in pieces.
pub proof fn law_pieces<E>(seen: Seq<u8>, first: Seq<u8>, second: Seq<u8>)
    requires
        (StreamModel::Reading { seen }).valid(),
        first.len() > 0,
        second.len() > 0,
        first.len() + second.len() <= stream::missing(seen),
    ensures
        ({
            let model = StreamModel::Reading { seen };
            let (between, reply) = model.after_poll(ReaderInput::<E>::Read(first));
            &&& reply is Read
            &&& between.after_poll(ReaderInput::<E>::Read(second)) == model.after_poll(
                ReaderInput::<E>::Read(first + second),
            )
        }),
{
    let middle = seen + first;
    assert(first.take(first.len() as int) =~= first);
    assert(second.take(second.len() as int) =~= second);
    assert((first + second).take((first + second).len() as int) =~= first + second);
    assert(middle + second =~= seen + (first + second));
    if seen.len() >= 9 {
        assert(middle.subrange(1, 5) =~= seen.subrange(1, 5));
        assert(middle.take(9) =~= seen.take(9));
    }
}

/// A reader that blocked or was interrupted changes nothing: no byte is lost and
/// none is read twice.
pub proof fn law_stream_retry<E>(model: StreamModel, kind: ErrorKind, error: E)
    requires
        kind == ErrorKind::Interrupted || kind == ErrorKind::WouldBlock,
    ensures
        model.after_poll(ReaderInput::Failed(kind, error)).0 == model,
{
}

/// Once a stream has ended it says so whenever it is asked, and reads nothing more.
pub proof fn law_end_stays<E>()
    ensures
        StreamModel::Ended.after_poll(ReaderInput::<E>::Start) == (
            StreamModel::Ended,
            StreamReply::<E>::End,
        ),
{
}

/// What a stream yields is what it has read: the item stands for the very bytes
/// that were read since the last one. It never has the unused type, and it never
/// looks like the end of the stream.
pub proof fn law_yields<E>(model: StreamModel, bytes: Seq<u8>)
    requires
        model is Reading,
        model.valid(),
    ensures
        model.after_poll(ReaderInput::<E>::Read(bytes)).1 matches StreamReply::Item(data, metadata)
            ==> {
            &&& wire::encode(data, metadata) == model->seen + bytes.take(
                wire::least(bytes.len() as int, stream::missing(model->seen)),
            )
            &&& wire::transmissible(data, metadata)
        },
{
    let seen = model->seen + bytes.take(
        wire::least(bytes.len() as int, stream::missing(model->seen)),
    );
    if seen.len() >= 9 && seen.len() == 9 + wire::length_of(seen) {
        wire::law_read_back_encode(seen);
        wire::law_be_bytes(0, seen.subrange(1, 5));
        assert(seen.take(9) =~= wire::header(wire::metadata_of(seen), wire::length_of(seen)));
    }
}

/// The stream stays in situations that make sense, whatever is read.
pub proof fn law_stream_valid<E>(model: StreamModel, input: ReaderInput<E>)
    requires
        model.valid(),
    ensures
        model.after_poll(input).0.valid(),
{
    if let (StreamModel::Reading { seen }, ReaderInput::Read(bytes)) = (model, input) {
        let took = bytes.take(wire::least(bytes.len() as int, stream::missing(seen)));
        if seen.len() >= 9 {
            assert((seen + took).subrange(1, 5) =~= seen.subrange(1, 5));
        } else if seen.len() + took.len() == 9 {
            wire::law_be_bytes(0, (seen + took).subrange(1, 5));
        }
    }
}

/// As long as no packet was malformed, the bytes that a stream has taken are the
/// packets of the items that it has yielded, in their order, and then what has
/// been read of the next one.
pub proof fn law_stream_run<E>(inputs: Seq<ReaderInput<E>>)
    requires
        stream_allows(inputs),
    ensures
        stream_run(inputs).model.valid(),
        !(stream_run(inputs).model is Failed),
        all_transmissible(stream_run(inputs).items),
        stream_run(inputs).clean ==> stream_run(inputs).consumed == encode_all(
            stream_run(inputs).items,
        ) + begun(stream_run(inputs).model),
    decreases inputs.len(),
{
    let run = stream_run(inputs);
    if inputs.len() == 0 {
        assert(run.consumed =~= encode_all(run.items) + begun(run.model));
    } else {
        let before = stream_run(inputs.drop_last());
        let input = inputs.last();
        law_stream_run(inputs.drop_last());
        law_stream_valid(before.model, input);
        if let (StreamModel::Reading { seen }, ReaderInput::Read(bytes)) = (before.model, input) {
            assert(bytes.take(bytes.len() as int) =~= bytes);
            law_yields::<E>(before.model, bytes);
            if before.clean {
                assert(before.consumed + bytes =~= encode_all(before.items) + (seen + bytes));
            }
            match before.model.after_poll(input).1 {
                StreamReply::Item(data, metadata) => {
                    assert(run.items.drop_last() =~= before.items);
                    assert(encode_all(run.items) + Seq::<u8>::empty() =~= encode_all(run.items));
                },
                StreamReply::End => {
                    if seen.len() >= 9 {
                        assert((seen + bytes).take(9) =~= seen.take(9));
                    }
                    assert((seen + bytes).take(9) =~= seen + bytes);
                },
                _ => {
                    if bytes.len() == 0 {
                        assert(seen + bytes =~= seen);
                    }
                },
            }
        }
    }
}

/// A packet with the unused type is refused as soon as its flags are read.
pub proof fn law_unused_type_refused<E>(data: Seq<u8>, metadata: Metadata)
    requires
        metadata.type_value() == TYPE_UNUSED,
    ensures
        (StreamModel::Reading { seen: Seq::empty() }).after_poll(
            ReaderInput::<E>::Read(wire::encode(data, metadata).take(1)),
        ) == (
            StreamModel::Reading { seen: Seq::empty() },
            StreamReply::<E>::Error(Error::Codec(CodecError::InvalidType)),
        ),
{
}

/// The packet without data whose flags and id are zero is the end of the stream.
pub proof fn law_zero_packet_ends(metadata: Metadata)
    requires
        metadata.flags == 0,
        metadata.id == 0,
    ensures
        wire::encode(Seq::empty(), metadata) == wire::end_header(),
{
    wire::law_end_header(metadata, 0);
    assert(wire::encode(Seq::empty(), metadata) =~= wire::header(metadata, 0));
}

/// What is on the wire from item `k` on, up to the end of the stream.
spec fn tail(items: Seq<(Seq<u8>, Metadata)>, k: int) -> Seq<u8>
    decreases items.len() - k,
{
    if 0 <= k < items.len() {
        wire::encode(items[k].0, items[k].1) + tail(items, k + 1)
    } else {
        wire::end_header()
    }
}

/// The wire can be split before each item.
proof fn lemma_tail(items: Seq<(Seq<u8>, Metadata)>, k: int)
    requires
        0 <= k <= items.len(),
    ensures
        encode_all(items.take(k)) + tail(items, k) == encode_all(items) + wire::end_header(),
    decreases items.len() - k,
{
    if k < items.len() {
        lemma_tail(items, k + 1);
        assert(items.take(k + 1).drop_last() =~= items.take(k));
        assert(encode_all(items.take(k)) + tail(items, k) =~= encode_all(items.take(k + 1)) + tail(
            items,
            k + 1,
        ));
    } else {
        assert(items.take(k) =~= items);
    }
}

/// Longer sequences of items take more bytes.
proof fn lemma_encode_all_grows(items: Seq<(Seq<u8>, Metadata)>, j: int, k: int)
    requires
        0 <= j <= k <= items.len(),
    ensures
        encode_all(items.take(j)).len() <= encode_all(items.take(k)).len(),
    decreases k - j,
{
    if j < k {
        lemma_encode_all_grows(items, j, k - 1);
        assert(items.take(k).drop_last() =~= items.take(k - 1));
    }
}

/// A prefix of a packet says what the packet says.
proof fn lemma_packet_prefix(seen: Seq<u8>, data: Seq<u8>, metadata: Metadata, rest: Seq<u8>)
    requires
        wire::transmissible(data, metadata),
        seen.is_prefix_of(wire::encode(data, metadata) + rest),
    ensures
        seen.len() > 0 ==> seen[0] % 4 != TYPE_UNUSED,
        seen.len() >= 9 ==> {
            &&& seen.take(9) != wire::end_header()
            &&& wire::length_of(seen) == data.len()
        },
        seen.len() == 9 + data.len() ==> seen == wire::encode(data, metadata),
        seen.len() == 9 + data.len() ==> seen.skip(9) == data && wire::metadata_of(seen)
            == metadata,
{
    let len = data.len() as int;
    let all = wire::encode(data, metadata) + rest;
    wire::law_header_read_back(metadata, len, data + rest);
    wire::law_encode_read_back(data, metadata);
    assert(all =~= wire::header(metadata, len) + (data + rest));
    assert(seen =~= all.take(seen.len() as int));
    if seen.len() > 0 {
        assert(seen[0] == metadata.flags);
    }
    if seen.len() >= 9 {
        assert(seen.take(9) =~= all.take(9));
        assert(seen.subrange(1, 5) =~= all.subrange(1, 5));
    }
    if seen.len() == 9 + data.len() {
        assert(seen =~= wire::encode(data, metadata));
    }
}

/// Taking the same beginning off keeps a prefix a prefix.
proof fn lemma_prefix_rest(front: Seq<u8>, a: Seq<u8>, b: Seq<u8>)
    requires
        (front + a).is_prefix_of(front + b),
    ensures
        a.is_prefix_of(b),
{
    let n = front.len() as int;
    assert forall|i: int| 0 <= i < a.len() implies a[i] == b[i] by {
        assert((front + a)[n + i] == (front + b).take((front + a).len() as int)[n + i]);
    }
    assert(a =~= b.take(a.len() as int));
}

/// Bytes that continue what was sent yield the next item that was sent, if any.
proof fn lemma_received_step<E>(
    sent: Seq<(Seq<u8>, Metadata)>,
    before: StreamRun,
    input: ReaderInput<E>,
)
    requires
        all_transmissible(sent),
        before.model.valid(),
        before.allows(input),
        before.clean,
        before.items.is_prefix_of(sent),
        before.consumed == encode_all(before.items) + begun(before.model),
        before.step(input).consumed.is_prefix_of(encode_all(sent) + wire::end_header()),
    ensures
        before.step(input).clean,
        before.step(input).items.is_prefix_of(sent),
{
    let run = before.step(input);
    let k = before.items.len() as int;
    if let (StreamModel::Reading { seen }, ReaderInput::Read(bytes)) = (before.model, input) {
        let next = seen + bytes;
        lemma_tail(sent, k);
        assert(before.items =~= sent.take(k));
        assert(bytes.take(bytes.len() as int) =~= bytes);
        assert(run.consumed =~= encode_all(before.items) + next);
        lemma_prefix_rest(encode_all(before.items), next, tail(sent, k));
        if k < sent.len() {
            let (data, metadata) = sent[k];
            assert(wire::transmissible(data, metadata));
            lemma_packet_prefix(next, data, metadata, tail(sent, k + 1));
            if run.items.len() > k {
                assert(run.items =~= sent.take(k + 1));
            }
        } else {
            assert(next =~= wire::end_header().take(next.len() as int));
            if next.len() >= 9 {
                assert(next.take(9) =~= wire::end_header());
            }
        }
    }
}

/// A stream that reads what was sent yields a beginning of what was sent.
proof fn lemma_received<E>(sent: Seq<(Seq<u8>, Metadata)>, inputs: Seq<ReaderInput<E>>)
    requires
        all_transmissible(sent),
        stream_allows(inputs),
        stream_run(inputs).consumed.is_prefix_of(encode_all(sent) + wire::end_header()),
    ensures
        stream_run(inputs).clean,
        stream_run(inputs).items.is_prefix_of(sent),
    decreases inputs.len(),
{
    let run = stream_run(inputs);
    let all = encode_all(sent) + wire::end_header();
    if inputs.len() == 0 {
        assert(run.items =~= sent.take(0));
    } else {
        let before = stream_run(inputs.drop_last());
        let n = before.consumed.len() as int;
        assert(before.consumed =~= run.consumed.take(n));
        assert(before.consumed =~= all.take(n));
        law_stream_run(inputs.drop_last());
        lemma_received(sent, inputs.drop_last());
        lemma_received_step(sent, before, inputs.last());
    }
}

/// A stream that has not yielded an item that was sent has not read all of it.
proof fn lemma_prompt(sent: Seq<(Seq<u8>, Metadata)>, run: StreamRun)
    requires
        all_transmissible(sent),
        run.model.valid(),
        !(run.model is Failed),
        run.items.is_prefix_of(sent),
        run.items.len() < sent.len(),
        run.consumed == encode_all(run.items) + begun(run.model),
        run.consumed.is_prefix_of(encode_all(sent) + wire::end_header()),
    ensures
        run.consumed.len() < encode_all(sent.take(run.items.len() as int + 1)).len(),
{
    let k = run.items.len() as int;
    let (data, metadata) = sent[k];
    assert(run.items =~= sent.take(k));
    lemma_tail(sent, k);
    lemma_prefix_rest(encode_all(run.items), begun(run.model), tail(sent, k));
    assert(wire::transmissible(data, metadata));
    lemma_packet_prefix(begun(run.model), data, metadata, tail(sent, k + 1));
    wire::law_encode_read_back(data, metadata);
    assert(sent.take(k + 1).drop_last() =~= sent.take(k));
    assert(wire::end_header().take(9) =~= wire::end_header());
}

/// A stream that reads what was sent yields what was sent: the items come out as
/// they went in, in the same order, each as soon as all its bytes have been read;
/// when the header that ends the stream has been read, all have come out and the
/// stream has ended.
pub proof fn law_received<E>(sent: Seq<(Seq<u8>, Metadata)>, inputs: Seq<ReaderInput<E>>)
    requires
        all_transmissible(sent),
        stream_allows(inputs),
        stream_run(inputs).consumed.is_prefix_of(encode_all(sent) + wire::end_header()),
    ensures
        stream_run(inputs).clean,
        stream_run(inputs).items.is_prefix_of(sent),
        forall|j: int|
            0 <= j <= sent.len() && (#[trigger] encode_all(sent.take(j))).len() <= stream_run(
                inputs,
            ).consumed.len() ==> j <= stream_run(inputs).items.len(),
        stream_run(inputs).consumed == encode_all(sent) + wire::end_header() ==> stream_run(
            inputs,
        ).items == sent && stream_run(inputs).model is Ended,
{
    let run = stream_run(inputs);
    let k = run.items.len() as int;
    law_stream_run(inputs);
    lemma_received(sent, inputs);
    assert forall|j: int|
        0 <= j <= sent.len() && (#[trigger] encode_all(sent.take(j))).len()
            <= run.consumed.len() implies j <= k by {
        if k < j {
            lemma_prompt(sent, run);
            lemma_encode_all_grows(sent, k + 1, j);
        }
    }
    if run.consumed == encode_all(sent) + wire::end_header() {
        let n = encode_all(sent).len() as int;
        assert(sent.take(sent.len() as int) =~= sent);
        assert(encode_all(sent.take(sent.len() as int)).len() <= run.consumed.len());
        assert(run.items =~= sent);
        assert(begun(run.model) =~= run.consumed.skip(n));
        assert(wire::end_header() =~= run.consumed.skip(n));
        assert(wire::end_header().take(9) =~= wire::end_header());
    }
}

/// What goes into a sink comes out of a stream: if a stream reads what a sink has
/// written, then it yields the items that the sink has accepted, in the same
/// order and without change. Nothing of that depends on the pieces in which the
/// bytes are written and read, nor on how often reader and writer block or are
/// interrupted. When the sink has nothing left to be written, and the stream has
/// read everything, all items have come out; and if the sink has been closed, the
/// stream has ended.
pub proof fn law_round_trip<E, F>(
    calls: Seq<(SinkCall, WriterEvent<E>)>,
    inputs: Seq<ReaderInput<F>>,
)
    requires
        sink_allows(calls),
        stream_allows(inputs),
        all_transmissible(sink_run(calls).accepted),
        stream_run(inputs).consumed.is_prefix_of(sink_run(calls).written),
    ensures
        stream_run(inputs).clean,
        stream_run(inputs).items.is_prefix_of(sink_run(calls).accepted),
        sink_run(calls).model is Idle && stream_run(inputs).consumed == sink_run(calls).written
            ==> stream_run(inputs).items == sink_run(calls).accepted,
        sink_run(calls).model is Shutdown && stream_run(inputs).consumed == sink_run(calls).written
            ==> stream_run(inputs).items == sink_run(calls).accepted && stream_run(
            inputs,
        ).model is Ended,
{
    let sender = sink_run(calls);
    let receiver = stream_run(inputs);
    let sent = sender.accepted;
    let all = encode_all(sent) + wire::end_header();
    law_sink_run(calls);
    law_sink_complete(calls);
    assert(receiver.consumed.is_prefix_of(all)) by {
        let balance = sender.written + sender.model.pending();
        let n = receiver.consumed.len() as int;
        assert forall|i: int| 0 <= i < n implies receiver.consumed[i] == all[i] by {
            assert(receiver.consumed[i] == sender.written.take(n)[i]);
            assert(balance[i] == sender.written[i]);
        }
        assert(receiver.consumed =~= all.take(n));
    }
    law_received(sent, inputs);
    if sender.model is Idle && receiver.consumed == sender.written {
        assert(sent.take(sent.len() as int) =~= sent);
        assert(receiver.items =~= sent.take(receiver.items.len() as int));
    }
}

} // verus!
