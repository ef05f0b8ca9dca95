//! Subscription operations: `subscription.open` returns the canonical snapshot and
//! the sequence of the first frame to come; `subscription.close` ends the stream.

use super::registry::Handler;
use super::session::str_field;
use super::session::text_or_empty;
use crate::continuity::coordinator::OpenedSubscription;
use crate::continuity::snapshot::SessionContinuitySnapshotView;
use crate::json::present;
use crate::json::Json;
use crate::json::JsonView;
use crate::json::ObjectBuilder;
use crate::protocol::errors::OpErrorCode;
use crate::protocol::ops::SUBSCRIPTION_CLOSE;
use crate::protocol::ops::SUBSCRIPTION_OPEN;
use crate::server::dispatcher::fail;
use crate::server::dispatcher::Dispatcher;
use crate::server::dispatcher::Outcome;
use crate::server::dispatcher::OutcomeView;
use crate::text::concat3;
use vstd::prelude::*;

verus! {

/// The subscription operations.
#[derive(Debug, Clone, Copy, PartialEq, Eq, Structural)]
pub enum SubscriptionOp {
    Open,
    Close,
}

/// The result of `subscription.open`.
pub open spec fn opened_json(
    subscription_id: Seq<char>,
    next_sequence: u64,
    snapshot: SessionContinuitySnapshotView,
) -> JsonView {
    JsonView::Object(
        present(
            Seq::empty()
                .push(("nextSequence"@, Some(JsonView::Number(next_sequence as int))))
                .push(("snapshot"@, Some(snapshot.json())))
                .push(("subscriptionId"@, Some(JsonView::Text(subscription_id)))),
        ),
    )
}

/// Answers `subscription.open`.
pub fn open_outcome(opened: &OpenedSubscription) -> (r: Outcome)
    ensures
        r@ == OutcomeView::Success(
            opened_json(opened.subscription_id@, opened.next_sequence, opened.snapshot@),
        ),
{
    let mut b = ObjectBuilder::new();
    b.put("nextSequence", Json::Uint(opened.next_sequence));
    b.put("snapshot", opened.snapshot.to_json());
    b.put_text("subscriptionId", opened.subscription_id.as_str());
    Outcome::Success(b.build())
}

/// Reads the subscription that `subscription.close` is about.
pub fn close_input(input: &Json) -> (r: Result<String, Outcome>)
    ensures
        match r {
            Ok(id) => id@.len() > 0 && id@ == text_or_empty(input@, "subscriptionId"@),
            Err(o) => text_or_empty(input@, "subscriptionId"@).len() == 0 && o@ == (
            OutcomeView::Failure {
                code: OpErrorCode::InvalidRequest,
                message: "subscriptionId is required"@,
            }),
        },
{
    let id = str_field(input, "subscriptionId");
    if id.as_str().is_empty() {
        return Err(fail(OpErrorCode::InvalidRequest, "subscriptionId is required"));
    }
    Ok(id)
}

/// The result of `subscription.close`.
pub open spec fn closed_json() -> JsonView {
    JsonView::Object(present(Seq::empty().push(("closed"@, Some(JsonView::Bool(true))))))
}

/// Answers `subscription.close`.
pub fn close_outcome(subscription_id: &str, was_open: bool) -> (r: Outcome)
    ensures
        r@ == (if was_open {
            OutcomeView::Success(closed_json())
        } else {
            OutcomeView::Failure {
                code: OpErrorCode::NotFound,
                message: "no subscription '"@ + subscription_id@ + "'"@,
            }
        }),
{
    if was_open {
        let mut b = ObjectBuilder::new();
        b.put("closed", Json::Bool(true));
        Outcome::Success(b.build())
    } else {
        fail(
            OpErrorCode::NotFound,
            concat3("no subscription '", subscription_id, "'").as_str(),
        )
    }
}

/// Registers the subscription handlers.
pub fn register(dispatcher: &mut Dispatcher<Handler>)
    requires
        old(dispatcher).wf(),
    ensures
        final(dispatcher).wf(),
        final(dispatcher).registry() == old(dispatcher).registry().insert(
            SUBSCRIPTION_OPEN@,
            Handler::Subscription(SubscriptionOp::Open),
        ).insert(SUBSCRIPTION_CLOSE@, Handler::Subscription(SubscriptionOp::Close)),
{
    dispatcher.register(SUBSCRIPTION_OPEN, Handler::Subscription(SubscriptionOp::Open));
    dispatcher.register(SUBSCRIPTION_CLOSE, Handler::Subscription(SubscriptionOp::Close));
}

/// What a client that subscribes is told: its subscription, the sequence of its first
/// frame, and the snapshot.
pub proof fn law_subscriptions_are_reported(
    subscription_id: Seq<char>,
    next_sequence: u64,
    snapshot: SessionContinuitySnapshotView,
)
    ensures
        opened_json(subscription_id, next_sequence, snapshot).text_at("subscriptionId"@) == Some(
            subscription_id,
        ),
        opened_json(subscription_id, next_sequence, snapshot).get("nextSequence"@) == Some(
            JsonView::Number(next_sequence as int),
        ),
        opened_json(subscription_id, next_sequence, snapshot).get("snapshot"@) == Some(
            snapshot.json(),
        ),
        closed_json().get("closed"@) == Some(JsonView::Bool(true)),
{
    let f: Seq<crate::json::Field> = Seq::empty().push(("nextSequence"@, Some(JsonView::Number(next_sequence as int)))).push(("snapshot"@, Some(snapshot.json()))).push(("subscriptionId"@, Some(JsonView::Text(subscription_id))));
    assert(crate::text::text_lt("nextSequence"@, "snapshot"@)) by {
        reveal_strlit("nextSequence");
        reveal_strlit("snapshot");
        assert(crate::text::lt_at("nextSequence"@, "snapshot"@, 0));
    };
    assert(crate::text::text_lt("snapshot"@, "subscriptionId"@)) by {
        reveal_strlit("snapshot");
        reveal_strlit("subscriptionId");
        assert(crate::text::lt_at("snapshot"@, "subscriptionId"@, 1));
    };
    crate::schema::lemma_step_ascends(f);
    crate::schema::lemma_lookup(f, 0);
    crate::schema::lemma_lookup(f, 1);
    crate::schema::lemma_lookup(f, 2);
    let g: Seq<crate::json::Field> = Seq::empty().push(("closed"@, Some(JsonView::Bool(true))));
    crate::schema::lemma_step_ascends(g);
    crate::schema::lemma_lookup(g, 0);
}

} // verus!
