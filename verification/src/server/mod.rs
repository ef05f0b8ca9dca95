//! The host's server side: connections, dispatch, turns and interactions.

pub mod connection;
pub mod dispatcher;
pub mod interaction;
pub mod kernel;
pub mod provider_factory;
pub mod records;
pub mod registration;
pub mod turn;
