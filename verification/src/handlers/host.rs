//! Bootstrap handlers: `host.status` and `host.diagnostics.query`, callable before
//! the host is ready, so that a client can probe liveness.

use super::registry::Handler;
use crate::json::present;
use crate::json::JsonView;
use crate::json::ObjectBuilder;
use crate::protocol::handshake::LifecycleState;
use crate::protocol::ops::HOST_DIAGNOSTICS_QUERY;
use crate::protocol::ops::HOST_STATUS;
use crate::server::dispatcher::Dispatcher;
use crate::server::dispatcher::OpContext;
use crate::server::dispatcher::Outcome;
use crate::server::dispatcher::OutcomeView;
use vstd::prelude::*;

verus! {

/// The status of a host.
pub open spec fn status_json(host_epoch: Seq<char>, state: LifecycleState) -> JsonView {
    JsonView::Object(
        present(
            Seq::empty()
                .push(("hostEpoch"@, Some(JsonView::Text(host_epoch))))
                .push(("state"@, Some(state.json()))),
        ),
    )
}

/// Answers a status query.
pub fn status_outcome(ctx: &OpContext) -> (r: Outcome)
    ensures
        r@ == OutcomeView::Success(status_json(ctx.host_epoch@, ctx.lifecycle)),
{
    let mut b = ObjectBuilder::new();
    b.put_text("hostEpoch", ctx.host_epoch.as_str());
    b.put("state", ctx.lifecycle.to_json());
    Outcome::Success(b.build())
}

/// Registers the bootstrap handlers.
pub fn register(dispatcher: &mut Dispatcher<Handler>)
    requires
        old(dispatcher).wf(),
    ensures
        final(dispatcher).wf(),
        final(dispatcher).registry() == old(dispatcher).registry().insert(
            HOST_STATUS@,
            Handler::HostStatus,
        ).insert(HOST_DIAGNOSTICS_QUERY@, Handler::HostStatus),
{
    dispatcher.register(HOST_STATUS, Handler::HostStatus);
    dispatcher.register(HOST_DIAGNOSTICS_QUERY, Handler::HostStatus);
}

/// A host's status names its epoch and its state.
pub proof fn law_status_is_the_hosts_own(host_epoch: Seq<char>, state: LifecycleState)
    ensures
        status_json(host_epoch, state).text_at("hostEpoch"@) == Some(host_epoch),
        status_json(host_epoch, state).text_at("state"@) matches Some(name)
            && LifecycleState::of_wire(name) == Some(state),
{
    let f: Seq<crate::json::Field> = Seq::empty().push(("hostEpoch"@, Some(JsonView::Text(host_epoch)))).push(("state"@, Some(state.json())));
    assert(crate::text::text_lt("hostEpoch"@, "state"@)) by {
        reveal_strlit("hostEpoch");
        reveal_strlit("state");
        assert(crate::text::lt_at("hostEpoch"@, "state"@, 0));
    };
    crate::schema::lemma_step_ascends(f);
    crate::schema::lemma_lookup(f, 0);
    crate::schema::lemma_lookup(f, 1);
    state.lemma_wire();
}

} // verus!
