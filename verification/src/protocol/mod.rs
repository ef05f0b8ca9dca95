//! Wire protocol for the host socket.
//!
//! One JSON object per frame, LF-delimited. Frames are closed-schema (unknown
//! keys are rejected) and `kind`-discriminated, with request and response frames
//! carrying no `kind` and serving as the routing fallback. See [`codec`] for
//! framing, [`envelope`] for frame routing, and [`handshake`] for the connection
//! negotiation.

pub mod codec;
pub mod envelope;
pub mod errors;
pub mod handshake;
pub mod ops;
pub mod versions;
