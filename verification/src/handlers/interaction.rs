//! Interaction operations: `interaction.query` lists a session's pending
//! permission prompts; `interaction.answer` resolves one and unblocks the waiting
//! turn.

use super::registry::Handler;
use super::session::str_field;
use super::session::text_or_empty;
use super::session::within;
use crate::interaction::PermissionAnswer;
use crate::interaction::PermissionDecision;
use crate::json::items_view;
use crate::json::present;
use crate::json::Json;
use crate::json::JsonView;
use crate::json::ObjectBuilder;
use crate::protocol::errors::OpErrorCode;
use crate::protocol::ops::INTERACTION_ANSWER;
use crate::protocol::ops::INTERACTION_QUERY;
use crate::schema::bool_at;
use crate::schema::read_bool;
use crate::server::dispatcher::fail;
use crate::server::dispatcher::Dispatcher;
use crate::server::dispatcher::Outcome;
use crate::server::dispatcher::OutcomeView;
use crate::server::interaction::AnswerError;
use crate::server::interaction::AnsweredInteraction;
use vstd::prelude::*;

verus! {

/// The interaction operations.
#[derive(Debug, Clone, Copy, PartialEq, Eq, Structural)]
pub enum InteractionOp {
    Query,
    Answer,
}

/// The result of `interaction.query`.
pub open spec fn pending_json(session_id: Seq<char>, pending: Seq<JsonView>) -> JsonView {
    JsonView::Object(
        present(
            Seq::empty()
                .push(("pending"@, Some(JsonView::Array(pending))))
                .push(("sessionId"@, Some(JsonView::Text(session_id)))),
        ),
    )
}

/// Answers `interaction.query` with a session's pending prompts.
pub fn query_outcome(session_id: &str, pending: Vec<Json>) -> (r: Outcome)
    ensures
        r@ == OutcomeView::Success(pending_json(session_id@, items_view(pending@))),
{
    broadcast use crate::json::group_json_view;

    let mut b = ObjectBuilder::new();
    b.put("pending", Json::Array(pending));
    b.put_text("sessionId", session_id);
    Outcome::Success(b.build())
}

/// Which prompt is answered, and how.
#[derive(Debug, PartialEq)]
pub struct AnswerInput {
    pub interaction_id: String,
    pub answer: PermissionAnswer,
}

/// The decision that an answer names.
pub open spec fn decision_in(input: JsonView) -> Option<PermissionDecision> {
    match within(input, "answer"@).text_at("decision"@) {
        Some(s) => PermissionDecision::of_wire(s),
        None => None,
    }
}

/// Whether the answer holds for the rest of the turn.
pub open spec fn remember_in(input: JsonView) -> bool {
    bool_at(within(input, "answer"@), "rememberForTurn"@) == Some(true)
}

/// Why the input of `interaction.answer` is refused.
pub open spec fn answer_refusal(input: JsonView) -> Option<Seq<char>> {
    if text_or_empty(input, "interactionId"@).len() == 0 {
        Some("interactionId is required"@)
    } else if decision_in(input) is None {
        Some("answer.decision must be 'allow' or 'deny'"@)
    } else {
        None
    }
}

/// Reads the input of `interaction.answer`.
pub fn answer_input(input: &Json) -> (r: Result<AnswerInput, Outcome>)
    ensures
        match r {
            Ok(a) => answer_refusal(input@) is None && a.interaction_id@ == text_or_empty(
                input@,
                "interactionId"@,
            ) && Some(a.answer.decision) == decision_in(input@) && a.answer.remember_for_turn
                == remember_in(input@),
            Err(o) => answer_refusal(input@) matches Some(m) && o@ == (OutcomeView::Failure {
                code: OpErrorCode::InvalidRequest,
                message: m,
            }),
        },
{
    let interaction_id = str_field(input, "interactionId");
    if interaction_id.as_str().is_empty() {
        return Err(fail(OpErrorCode::InvalidRequest, "interactionId is required"));
    }
    let null = Json::Null;
    let answer = match input.get("answer") {
        Some(a) => a,
        None => &null,
    };
    let decision = match answer.text_at("decision") {
        Some(s) => PermissionDecision::parse(s.as_str()),
        None => None,
    };
    let decision = match decision {
        Some(d) => d,
        None => return Err(
            fail(OpErrorCode::InvalidRequest, "answer.decision must be 'allow' or 'deny'"),
        ),
    };
    let remember_for_turn = match read_bool(answer, "rememberForTurn") {
        Some(b) => b,
        None => false,
    };
    Ok(AnswerInput { interaction_id, answer: PermissionAnswer { decision, remember_for_turn } })
}

/// The result of an answer that was taken.
pub open spec fn resolved_json() -> JsonView {
    JsonView::Object(present(Seq::empty().push(("resolved"@, Some(JsonView::Bool(true))))))
}

/// Answers `interaction.answer`: a prompt that is not pending was resolved
/// already.
pub fn answer_outcome(result: &Result<AnsweredInteraction, AnswerError>) -> (r: Outcome)
    ensures
        r@ == match *result {
            Ok(_) => OutcomeView::Success(resolved_json()),
            Err(AnswerError::NotFound(id)) => OutcomeView::Failure {
                code: OpErrorCode::AlreadyResolved,
                message: id@,
            },
        },
{
    match result {
        Ok(_) => {
            let mut b = ObjectBuilder::new();
            b.put("resolved", Json::Bool(true));
            Outcome::Success(b.build())
        },
        Err(AnswerError::NotFound(id)) => fail(OpErrorCode::AlreadyResolved, id.as_str()),
    }
}

/// Registers the interaction handlers.
pub fn register(dispatcher: &mut Dispatcher<Handler>)
    requires
        old(dispatcher).wf(),
    ensures
        final(dispatcher).wf(),
        final(dispatcher).registry() == old(dispatcher).registry().insert(
            INTERACTION_QUERY@,
            Handler::Interaction(InteractionOp::Query),
        ).insert(INTERACTION_ANSWER@, Handler::Interaction(InteractionOp::Answer)),
{
    dispatcher.register(INTERACTION_QUERY, Handler::Interaction(InteractionOp::Query));
    dispatcher.register(INTERACTION_ANSWER, Handler::Interaction(InteractionOp::Answer));
}

/// What an answer says: the prompt that it names is allowed or denied exactly as it says,
/// for the rest of the turn only where it says so, and anything else is refused.
pub proof fn law_answers_are_read(input: JsonView)
    ensures
        ({
            let answer = match input.get("answer"@) {
                Some(a) => a,
                None => JsonView::Null,
            };
            let named = input.text_at("interactionId"@) matches Some(id) && id.len() > 0;
            &&& decision_in(input) == Some(PermissionDecision::Allow) <==> answer.text_at(
                "decision"@,
            ) == Some("allow"@)
            &&& decision_in(input) == Some(PermissionDecision::Deny) <==> answer.text_at(
                "decision"@,
            ) == Some("deny"@)
            &&& remember_in(input) <==> answer.get("rememberForTurn"@) == Some(JsonView::Bool(true))
            &&& answer_refusal(input) is None <==> named && decision_in(input) is Some
            &&& !named ==> answer_refusal(input) == Some("interactionId is required"@)
            &&& named && decision_in(input) is None ==> answer_refusal(input) == Some(
                "answer.decision must be 'allow' or 'deny'"@,
            )
        }),
{
    PermissionDecision::law_wire_names();
    reveal_strlit("allow");
    reveal_strlit("deny");
    assert("allow"@.len() == 5 && "deny"@.len() == 4);
}

/// What clients are told: of a query, the pending prompts of the session; of an answer
/// that was taken, that it is resolved, and of one that came too late, that it already is.
pub proof fn law_interactions_are_reported(
    session_id: Seq<char>,
    pending: Seq<JsonView>,
    result: &Result<AnsweredInteraction, AnswerError>,
    r: Outcome,
)
    requires
        call_ensures(answer_outcome, (result,), r),
    ensures
        pending_json(session_id, pending).get("pending"@) == Some(JsonView::Array(pending)),
        pending_json(session_id, pending).text_at("sessionId"@) == Some(session_id),
        *result is Ok <==> r@ is Success,
        *result is Err ==> (r@ matches OutcomeView::Failure { code, .. } && code is AlreadyResolved),
        resolved_json().get("resolved"@) == Some(JsonView::Bool(true)),
{
    let f: Seq<crate::json::Field> = Seq::empty().push(("pending"@, Some(JsonView::Array(pending)))).push(("sessionId"@, Some(JsonView::Text(session_id))));
    assert(crate::text::text_lt("pending"@, "sessionId"@)) by {
        reveal_strlit("pending");
        reveal_strlit("sessionId");
        assert(crate::text::lt_at("pending"@, "sessionId"@, 0));
    };
    crate::schema::lemma_step_ascends(f);
    crate::schema::lemma_lookup(f, 0);
    crate::schema::lemma_lookup(f, 1);
    let g: Seq<crate::json::Field> = Seq::empty().push(("resolved"@, Some(JsonView::Bool(true))));
    crate::schema::lemma_step_ascends(g);
    crate::schema::lemma_lookup(g, 0);
}

} // verus!
