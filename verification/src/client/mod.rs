//! The client side: handshake, request and response, streamed frames, and finding
//! the owner of a root.

pub mod connect_or_spawn;
pub mod connection;
