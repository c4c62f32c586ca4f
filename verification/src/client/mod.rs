//! Talking to a Docker or Podman socket: the engine address and kind, the
//! error type, query strings, and the framing of streamed responses.

pub mod buffer;
pub mod engine;
pub mod framing;
pub mod query;
