# packet-stream-codec

The [packet-stream-codec](https://github.com/dominictarr/packet-stream-codec) used
by muxrpc, verified with [Verus](https://github.com/verus-lang/verus).

A packet travels as a header of nine bytes (flags, length of the data, id; numbers
with the most significant byte first) and its data. Nine zeros end the stream.

- `src/metadata.rs`, `src/wire.rs`: the metadata of a packet and its layout.
- `src/sink.rs`: `CodecSink`, which encodes items.
- `src/stream.rs`: `CodecStream`, which decodes them.
- `src/event.rs`: what the two say to those who use them. Neither reads or writes by
  itself: a call asks for one operation at a time and is told what came of it.
- `src/laws.rs`: what holds of the whole. What is sent arrives, whatever the pieces in
  which it is written and read.
- `app/`: the codec as a `Sink` and a `Stream` of `futures`, over an `AsyncWrite` and
  an `AsyncRead` of `tokio-io`.

A packet without data whose flags and id are zero cannot be told from the end of the
stream, and one with the unused type is refused by the stream that reads it. The sink
sends both as it sends any other.
