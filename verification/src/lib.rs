//! A line-based key/value telegram protocol: the buffers it carries and a
//! resumable codec that frames them on a byte stream.
//!
//! # Buffers
//! A [`Telegram`] is a _topic_ followed by zero or more key/value parameters
//! with unique keys. [`Params`] is the parameter set on its own, and
//! [`KVLines`] is an ordered key/value list whose keys may repeat.
//!
//! # Codec
//! A [`Codec`] turns the bytes that a transport delivers, in whatever pieces
//! they arrive, into complete buffers and raw payloads, and writes buffers
//! back out in wire form. Every function of the crate is verified against the
//! contract it states.
pub mod buf;
pub mod codec;
pub mod err;
pub mod laws;
pub mod text;
pub mod types;
pub mod wire;

pub use codec::{BoxedSink, Codec, CodecState, Input, Sink};
pub use err::Error;
pub use types::{KVLines, KeyValue, Params, Telegram};
