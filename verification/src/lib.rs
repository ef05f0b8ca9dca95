//! Contract layer, permission policy, wire protocol and turn coordination of a
//! single-owner agent host, with every rule stated and proved.

pub mod backend;
pub mod cli;
pub mod client;
pub mod continuity;
pub mod digest;
pub mod handlers;
pub mod headless;
pub mod ids;
pub mod interaction;
pub mod json;
pub mod permission;
pub mod protocol;
pub mod recovery_fact;
pub mod runtime_event;
pub mod schema;
pub mod server;
pub mod session_event;
pub mod store;
pub mod text;
pub mod text_map;
pub mod tool_ledger_scanner;
pub mod tool_operation;
pub mod transport;
