//! Turn operations: start, stop, and resume. The response to a start returns once
//! the turn is admitted; assistant output streams over a subscription.

use super::registry::Handler;
use super::session::str_field;
use super::session::text_or_empty;
use crate::json::Json;
use crate::json::JsonView;
use crate::protocol::errors::OpErrorCode;
use crate::protocol::ops::TURN_RESUME_QUERY;
use crate::protocol::ops::TURN_RESUME_START;
use crate::protocol::ops::TURN_START;
use crate::protocol::ops::TURN_STOP;
use crate::schema::i64_at;
use crate::schema::read_i64;
use crate::server::dispatcher::fail;
use crate::server::dispatcher::Dispatcher;
use crate::server::dispatcher::Outcome;
use crate::server::dispatcher::OutcomeView;
use crate::server::turn::ResumePlan;
use crate::server::turn::ResumeStart;
use crate::server::turn::TurnError;
use crate::server::turn::TurnErrorView;
use crate::server::turn::TurnStarted;
use crate::server::turn::TurnStopped;
use vstd::prelude::*;

verus! {

/// The turn operations.
#[derive(Debug, Clone, Copy, PartialEq, Eq, Structural)]
pub enum TurnOp {
    Start,
    Stop,
    ResumeQuery,
    ResumeStart,
}

/// What a turn is started with.
#[derive(Debug, PartialEq)]
pub struct StartInput {
    pub session_id: String,
    pub content: String,
}

/// Reads the input of `turn.start`: session and content are both required.
pub fn start_input(input: &Json) -> (r: Result<StartInput, Outcome>)
    ensures
        ({
            let session_id = text_or_empty(input@, "sessionId"@);
            let content = text_or_empty(input@, "content"@);
            match r {
                Ok(start) => session_id.len() > 0 && content.len() > 0 && start.session_id@
                    == session_id && start.content@ == content,
                Err(o) => (session_id.len() == 0 || content.len() == 0) && o@ == (
                OutcomeView::Failure {
                    code: OpErrorCode::InvalidRequest,
                    message: "sessionId and content are required"@,
                }),
            }
        }),
{
    let session_id = str_field(input, "sessionId");
    let content = str_field(input, "content");
    if session_id.as_str().is_empty() || content.as_str().is_empty() {
        return Err(fail(OpErrorCode::InvalidRequest, "sessionId and content are required"));
    }
    Ok(StartInput { session_id, content })
}

/// Reads the session that an operation is about.
pub fn session_input(input: &Json) -> (r: Result<String, Outcome>)
    ensures
        match r {
            Ok(id) => id@.len() > 0 && id@ == text_or_empty(input@, "sessionId"@),
            Err(o) => text_or_empty(input@, "sessionId"@).len() == 0 && o@ == (
            OutcomeView::Failure {
                code: OpErrorCode::InvalidRequest,
                message: "sessionId is required"@,
            }),
        },
{
    let session_id = str_field(input, "sessionId");
    if session_id.as_str().is_empty() {
        return Err(fail(OpErrorCode::InvalidRequest, "sessionId is required"));
    }
    Ok(session_id)
}

/// The resume cursor that the caller names; zero when it names none.
pub open spec fn cursor(input: JsonView) -> i64 {
    match i64_at(input, "sourceRuntimeEventHighWater"@) {
        Some(n) => n,
        None => 0,
    }
}

/// Reads the resume cursor that the caller names.
pub fn resume_cursor(input: &Json) -> (r: i64)
    ensures
        r == cursor(input@),
{
    match read_i64(input, "sourceRuntimeEventHighWater") {
        Some(n) => n,
        None => 0,
    }
}

/// How a refused turn is answered.
pub open spec fn turn_failure(e: TurnErrorView) -> OutcomeView {
    match e {
        TurnErrorView::SessionBusy => OutcomeView::Failure {
            code: OpErrorCode::SessionBusy,
            message: "a turn is already running for this session"@,
        },
        TurnErrorView::NotFound(m) => OutcomeView::Failure {
            code: OpErrorCode::NotFound,
            message: m,
        },
        TurnErrorView::SessionArchived(m) => OutcomeView::Failure {
            code: OpErrorCode::SessionArchived,
            message: m,
        },
        TurnErrorView::SessionPoisoned => OutcomeView::Failure {
            code: OpErrorCode::OperationConflict,
            message: "session admission chain is poisoned"@,
        },
        TurnErrorView::Storage(m) => OutcomeView::Failure {
            code: OpErrorCode::PersistenceFailed,
            message: m,
        },
    }
}

/// Answers a refused turn.
pub fn refused(e: TurnError) -> (r: Outcome)
    ensures
        r@ == turn_failure(e@),
{
    match e {
        TurnError::SessionBusy => fail(
            OpErrorCode::SessionBusy,
            "a turn is already running for this session",
        ),
        TurnError::NotFound(m) => fail(OpErrorCode::NotFound, m.as_str()),
        TurnError::SessionArchived(m) => fail(OpErrorCode::SessionArchived, m.as_str()),
        TurnError::SessionPoisoned => fail(
            OpErrorCode::OperationConflict,
            "session admission chain is poisoned",
        ),
        TurnError::Storage(m) => fail(OpErrorCode::PersistenceFailed, m.as_str()),
    }
}

/// Answers `turn.start`.
pub fn start_outcome(result: Result<TurnStarted, TurnError>) -> (r: Outcome)
    ensures
        r@ == match result {
            Ok(started) => OutcomeView::Success(started@.json()),
            Err(e) => turn_failure(e@),
        },
{
    match result {
        Ok(started) => Outcome::Success(started.to_json()),
        Err(e) => refused(e),
    }
}

/// Answers `turn.stop`.
pub fn stop_outcome(result: Result<TurnStopped, TurnError>) -> (r: Outcome)
    ensures
        r@ == match result {
            Ok(stopped) => OutcomeView::Success(stopped@.json()),
            Err(e) => turn_failure(e@),
        },
{
    match result {
        Ok(stopped) => Outcome::Success(stopped.to_json()),
        Err(e) => refused(e),
    }
}

/// Answers `turn.resume.query`.
pub fn resume_query_outcome(result: Result<ResumePlan, TurnError>) -> (r: Outcome)
    ensures
        r@ == match result {
            Ok(plan) => OutcomeView::Success(plan@.json()),
            Err(e) => turn_failure(e@),
        },
{
    match result {
        Ok(plan) => Outcome::Success(plan.to_json()),
        Err(e) => refused(e),
    }
}

/// Answers `turn.resume.start`.
pub fn resume_start_outcome(result: Result<ResumeStart, TurnError>) -> (r: Outcome)
    ensures
        r@ == match result {
            Ok(start) => OutcomeView::Success(start@.json()),
            Err(e) => turn_failure(e@),
        },
{
    match result {
        Ok(start) => Outcome::Success(start.to_json()),
        Err(e) => refused(e),
    }
}

/// Registers the turn handlers.
pub fn register(dispatcher: &mut Dispatcher<Handler>)
    requires
        old(dispatcher).wf(),
    ensures
        final(dispatcher).wf(),
        final(dispatcher).registry() == old(dispatcher).registry().insert(
            TURN_START@,
            Handler::Turn(TurnOp::Start),
        ).insert(TURN_STOP@, Handler::Turn(TurnOp::Stop)).insert(
            TURN_RESUME_QUERY@,
            Handler::Turn(TurnOp::ResumeQuery),
        ).insert(TURN_RESUME_START@, Handler::Turn(TurnOp::ResumeStart)),
{
    dispatcher.register(TURN_START, Handler::Turn(TurnOp::Start));
    dispatcher.register(TURN_STOP, Handler::Turn(TurnOp::Stop));
    dispatcher.register(TURN_RESUME_QUERY, Handler::Turn(TurnOp::ResumeQuery));
    dispatcher.register(TURN_RESUME_START, Handler::Turn(TurnOp::ResumeStart));
}

/// A refused turn is answered with the code of what refused it.
pub proof fn law_refused_turns_are_answered(e: TurnErrorView)
    ensures
        turn_failure(e) matches OutcomeView::Failure { code, message } && {
            &&& code is SessionBusy <==> e is SessionBusy
            &&& code is NotFound <==> e is NotFound
            &&& code is SessionArchived <==> e is SessionArchived
            &&& code is OperationConflict <==> e is SessionPoisoned
            &&& code is PersistenceFailed <==> e is Storage
            &&& e matches TurnErrorView::NotFound(m) ==> message == m
            &&& e matches TurnErrorView::SessionArchived(m) ==> message == m
            &&& e matches TurnErrorView::Storage(m) ==> message == m
            &&& e is SessionBusy ==> message == "a turn is already running for this session"@
            &&& e is SessionPoisoned ==> message == "session admission chain is poisoned"@
        },
{
}

/// The cursor of a resume is the whole number that the input names, and zero where it
/// names none.
pub proof fn law_cursors_are_read(input: JsonView)
    ensures
        cursor(input) == (match input.get("sourceRuntimeEventHighWater"@) {
            Some(JsonView::Number(n)) => if i64::MIN <= n <= i64::MAX {
                n
            } else {
                0
            },
            _ => 0,
        }),
{
}

/// A turn is started with the session and the content that the input names, and both must
/// be there.
pub proof fn law_turns_start_with_their_input(input: &Json, r: Result<StartInput, Outcome>)
    requires
        call_ensures(start_input, (input,), r),
    ensures
        ({
            let text = |key: Seq<char>| match input@.get(key) {
                Some(JsonView::Text(s)) => s,
                _ => Seq::empty(),
            };
            &&& r is Ok <==> text("sessionId"@).len() > 0 && text("content"@).len() > 0
            &&& r matches Ok(s) ==> s.session_id@ == text("sessionId"@) && s.content@ == text(
                "content"@,
            )
            &&& r matches Err(o) ==> (o@ matches OutcomeView::Failure { code, .. }
                && code is InvalidRequest)
        }),
{
}

} // verus!
