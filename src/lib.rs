//! Framed, correlated remote calls over a single byte stream: the wire
//! framing, the correlation-id allocator, the table of pending calls and the
//! routing of each inbound frame.

pub mod framing;
pub mod session;
pub mod codec;
