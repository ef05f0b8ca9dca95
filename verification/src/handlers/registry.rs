//! The handlers that the host's dispatcher holds.

use super::interaction::InteractionOp;
use super::session::SessionOp;
use super::subscription::SubscriptionOp;
use super::turn::TurnOp;
use vstd::prelude::*;

verus! {

/// What handles an operation.
#[derive(Debug, Clone, Copy, PartialEq, Eq, Structural)]
pub enum Handler {
    HostStatus,
    Session(SessionOp),
    Turn(TurnOp),
    Interaction(InteractionOp),
    Subscription(SubscriptionOp),
}

} // verus!
