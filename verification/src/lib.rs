//! The packet-stream-codec used by muxrpc, as a state machine whose reads and
//! writes are done by the caller.
pub mod answers;
pub mod event;
pub mod laws;
pub mod metadata;
pub mod sink;
pub mod stream;
pub mod wire;

pub use metadata::{
    Metadata, PacketId, END, STREAM, TYPE, TYPE_BINARY, TYPE_JSON, TYPE_STRING,
};
pub use sink::CodecSink;
pub use stream::CodecStream;
