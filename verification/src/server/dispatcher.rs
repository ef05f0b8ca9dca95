//! Operation dispatcher: a flat registry from operation name to handler.
//!
//! Unknown operations resolve to `operation_unavailable`. An error code that an
//! operation did not declare never leaves the host: it is reported as an
//! internal failure.

use crate::json::Json;
use crate::json::JsonView;
use crate::protocol::errors::OpErrorCode;
use crate::protocol::errors::OperationError;
use crate::protocol::envelope::ResponseFrame;
use crate::protocol::envelope::ResponseFrameView;
use crate::protocol::errors::capped;
use crate::protocol::errors::OperationErrorView;
use crate::protocol::handshake::LifecycleState;
use crate::protocol::ops::is_declared;
use crate::protocol::ops::law_every_operation_can_fail_internally;
use crate::protocol::ops::law_operations_are_unique;
use crate::protocol::ops::spec_for;
use crate::protocol::ops::spine;
use crate::text::concat3;
use crate::text_map::TextMap;
use vstd::prelude::*;

verus! {

/// Per-request context handed to every handler.
#[derive(Debug)]
pub struct OpContext {
    pub host_epoch: String,
    pub lifecycle: LifecycleState,
}

impl Clone for OpContext {
    fn clone(&self) -> (r: Self)
        ensures
            r == *self,
    {
        OpContext { host_epoch: self.host_epoch.clone(), lifecycle: self.lifecycle }
    }
}

/// Handler outcome: a successful result value, or an operation error.
#[derive(Debug, PartialEq)]
pub enum Outcome {
    Success(Json),
    Failure { code: OpErrorCode, message: String },
}

/// What an [`Outcome`] says.
pub enum OutcomeView {
    Success(JsonView),
    Failure { code: OpErrorCode, message: Seq<char> },
}

impl View for Outcome {
    type V = OutcomeView;

    open spec fn view(&self) -> OutcomeView {
        match *self {
            Outcome::Success(v) => OutcomeView::Success(v@),
            Outcome::Failure { code, message } => OutcomeView::Failure { code, message: message@ },
        }
    }
}

/// An outcome that reports `code`.
pub fn fail(code: OpErrorCode, message: &str) -> (r: Outcome)
    ensures
        r@ == (OutcomeView::Failure { code, message: message@ }),
{
    Outcome::Failure { code, message: message.to_owned() }
}

// ---------------------------------------------------------------------------
// The registry
// ---------------------------------------------------------------------------

/// Registry from operation name to handler. A later registration replaces an
/// earlier one.
pub struct Dispatcher<H> {
    handlers: TextMap<H>,
}

impl<H> Dispatcher<H> {
    pub closed spec fn wf(&self) -> bool {
        self.handlers.wf()
    }

    /// The handler of each registered operation.
    pub closed spec fn registry(&self) -> Map<Seq<char>, H> {
        self.handlers.map()
    }

    pub fn new() -> (r: Self)
        ensures
            r.wf(),
            r.registry() == Map::<Seq<char>, H>::empty(),
    {
        Dispatcher { handlers: TextMap::new() }
    }

    pub fn register(&mut self, op: &str, handler: H)
        requires
            old(self).wf(),
        ensures
            final(self).wf(),
            final(self).registry() == old(self).registry().insert(op@, handler),
    {
        self.handlers.insert(op, handler);
    }

    /// The handler of an operation, or the outcome of an unknown one.
    pub fn dispatch(&self, op: &str) -> (r: Result<&H, Outcome>)
        requires
            self.wf(),
        ensures
            match r {
                Ok(h) => self.registry().contains_key(op@) && *h == self.registry()[op@],
                Err(o) => !self.registry().contains_key(op@) && o@ == unknown_operation(op@),
            },
    {
        match self.handlers.get(op) {
            Some(h) => Ok(h),
            None => Err(
                Outcome::Failure {
                    code: OpErrorCode::OperationUnavailable,
                    message: concat3("unknown operation '", op, "'"),
                },
            ),
        }
    }
}

impl<H> Default for Dispatcher<H> {
    fn default() -> (r: Self)
        ensures
            r.wf(),
            r.registry() == Map::<Seq<char>, H>::empty(),
    {
        Dispatcher::new()
    }
}

/// What is answered for an operation that has no handler.
pub open spec fn unknown_operation(op: Seq<char>) -> OutcomeView {
    OutcomeView::Failure {
        code: OpErrorCode::OperationUnavailable,
        message: "unknown operation '"@ + op + "'"@,
    }
}

// ---------------------------------------------------------------------------
// Declared errors and the response
// ---------------------------------------------------------------------------

/// The operation declares the code, or is not part of the operation set.
pub open spec fn may_return(op: Seq<char>, code: OpErrorCode) -> bool {
    forall|i: int|
        0 <= i < spine().len() && (#[trigger] spine()[i]).0 == op ==> spine()[i].1.contains(code)
}

/// What leaves the host for a handler's outcome: an error code that the
/// operation did not declare is replaced by an internal failure.
pub open spec fn declared_outcome(op: Seq<char>, outcome: OutcomeView) -> OutcomeView {
    match outcome {
        OutcomeView::Failure { code, message } => if may_return(op, code) {
            outcome
        } else {
            OutcomeView::Failure { code: OpErrorCode::InternalFailure, message }
        },
        OutcomeView::Success(_) => outcome,
    }
}

fn contains_code(codes: &Vec<OpErrorCode>, code: OpErrorCode) -> (r: bool)
    ensures
        r == codes@.contains(code),
{
    let mut i: usize = 0;
    while i < codes.len()
        invariant
            i <= codes.len(),
            forall|k: int| 0 <= k < i ==> codes@[k] != code,
        decreases codes.len() - i,
    {
        if codes[i] == code {
            return true;
        }
        i = i + 1;
    }
    false
}

/// What leaves the host for a handler's outcome.
pub fn enforce_declared(op: &str, outcome: Outcome) -> (r: Outcome)
    ensures
        r@ == declared_outcome(op@, outcome@),
{
    match outcome {
        Outcome::Success(v) => Outcome::Success(v),
        Outcome::Failure { code, message } => match spec_for(op) {
            Some(spec) => {
                let allowed = contains_code(&spec.allowed_error_codes, code);
                proof {
                    let k = choose|k: int| 0 <= k < spine().len() && #[trigger] spine()[k] == spec@;
                    assert forall|i: int|
                        0 <= i < spine().len() && (#[trigger] spine()[i]).0 == op@ implies i == k by {
                        if i < k {
                            law_operations_are_unique(i, k);
                        } else if k < i {
                            law_operations_are_unique(k, i);
                        }
                    }
                    assert(spine()[k].0 == op@);
                    assert(may_return(op@, code) == allowed);
                }
                if allowed {
                    Outcome::Failure { code, message }
                } else {
                    Outcome::Failure { code: OpErrorCode::InternalFailure, message }
                }
            },
            None => {
                assert(may_return(op@, code)) by {
                    assert(!is_declared(op@));
                }
                Outcome::Failure { code, message }
            },
        },
    }
}

/// No error code leaves the host that its operation did not declare.
pub proof fn law_only_declared_errors_leave(op: Seq<char>, outcome: OutcomeView)
    ensures
        declared_outcome(op, outcome) matches OutcomeView::Failure { code, .. } ==> may_return(op, code),
{
    assert forall|i: int| 0 <= i < spine().len() && (#[trigger] spine()[i]).0 == op implies
        spine()[i].1.contains(OpErrorCode::InternalFailure) by {
        law_every_operation_can_fail_internally(i);
    }
}

/// The response that carries an outcome.
pub open spec fn response_to(
    request_id: Seq<char>,
    operation: Seq<char>,
    outcome: OutcomeView,
) -> ResponseFrameView {
    match outcome {
        OutcomeView::Success(result) => ResponseFrameView {
            request_id,
            operation,
            ok: true,
            result: Some(result),
            error: None,
        },
        OutcomeView::Failure { code, message } => ResponseFrameView {
            request_id,
            operation,
            ok: false,
            result: None,
            error: Some(OperationErrorView { code, message: capped(message) }),
        },
    }
}

/// The response that carries an outcome.
pub fn respond(request_id: &str, operation: &str, outcome: Outcome) -> (r: ResponseFrame)
    ensures
        r@ == response_to(request_id@, operation@, outcome@),
        r@.valid(),
{
    match outcome {
        Outcome::Success(result) => ResponseFrame::ok(request_id, operation, result),
        Outcome::Failure { code, message } => ResponseFrame::err(
            request_id,
            operation,
            OperationError::new(code, message.as_str()),
        ),
    }
}

/// What leaves the host: a success as it is; a failure with its message, and with its
/// code where the operation declares it, else as an internal failure. The response is
/// under the request's id and operation, and carries the result or the error, never both.
pub proof fn law_outcomes_leave_as_they_are(
    request_id: Seq<char>,
    op: Seq<char>,
    outcome: OutcomeView,
)
    ensures
        ({
            let left = declared_outcome(op, outcome);
            let r = response_to(request_id, op, left);
            &&& r.request_id == request_id
            &&& r.operation == op
            &&& match outcome {
                OutcomeView::Success(v) => left == outcome && r.ok && r.result == Some(v)
                    && r.error is None,
                OutcomeView::Failure { code, message } => !r.ok && r.result is None && (
                r.error matches Some(e) && e.code == (if may_return(op, code) {
                    code
                } else {
                    OpErrorCode::InternalFailure
                }) && e.message.is_prefix_of(message) && (message.len() <= 1024 ==> e.message
                    == message)),
            }
        }),
        unknown_operation(op) matches OutcomeView::Failure { code, .. } && code
            is OperationUnavailable,
{
}

/// An operation without a handler is answered as unavailable, under the name that was asked.
pub proof fn law_unknown_operations_are_unavailable(op: Seq<char>)
    ensures
        unknown_operation(op) matches OutcomeView::Failure { code, message } && code
            is OperationUnavailable && message == "unknown operation '"@ + op + "'"@,
{
}

} // verus!
