//! Session continuity: the streaming projection layer.
//!
//! A subscription returns the canonical snapshot plus a monotonic sequence, then
//! the host pushes `subscription.*` frames as the session's runtime events
//! arrive. Streaming is keyed by subscription, sequence and host epoch, not by
//! the originating request.

pub mod coordinator;
pub mod frames;
pub mod snapshot;
