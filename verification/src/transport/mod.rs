//! The bounded outbound queue of a connection.

pub mod outbound;
