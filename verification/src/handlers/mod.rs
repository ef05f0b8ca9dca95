//! Operation handlers: what each operation asks of the host's services, and what
//! it answers.

pub mod host;
pub mod interaction;
pub mod registry;
pub mod session;
pub mod subscription;
pub mod turn;
