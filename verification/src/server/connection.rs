//! Serving one connection: handshake, then requests.
//!
//! The first client frame must be `hello`; the host replies with exactly one
//! handshake result. Once accepted, each request is dispatched and answered by
//! one response; other frames are ignored. A framing fault drops the connection.

use crate::ids::fresh_id;
use crate::ids::is_uuid_text;
use crate::json::Json;
use crate::json::JsonView;
use crate::protocol::envelope::client_frame;
use crate::protocol::envelope::decode_client_frame;
use crate::protocol::envelope::ClientFrame;
use crate::protocol::envelope::ClientFrameView;
use crate::protocol::envelope::FrameFault;
use crate::protocol::envelope::RequestFrame;
use crate::protocol::envelope::RequestFrameView;
use crate::protocol::handshake::negotiate_protocol;
use crate::protocol::handshake::negotiated;
use crate::protocol::handshake::AcceptedFrame;
use crate::protocol::handshake::AcceptedFrameView;
use crate::protocol::handshake::DrainingFrame;
use crate::protocol::handshake::DrainingFrameView;
use crate::protocol::handshake::HandshakeKind;
use crate::protocol::handshake::HandshakeResult;
use crate::protocol::handshake::HandshakeResultView;
use crate::protocol::handshake::HelloFrameView;
use crate::protocol::handshake::IncompatibleFrame;
use crate::protocol::handshake::IncompatibleFrameView;
use crate::protocol::handshake::LifecycleState;
use crate::protocol::handshake::ReplacementPolicy;
use crate::protocol::versions::COMPATIBILITY_EPOCH;
use crate::protocol::versions::PROTOCOL_MAX;
use crate::protocol::versions::PROTOCOL_MIN;
use super::dispatcher::declared_outcome;
use super::dispatcher::enforce_declared;
use super::dispatcher::respond;
use super::dispatcher::response_to;
use super::dispatcher::unknown_operation;
use super::dispatcher::Dispatcher;
use super::dispatcher::OpContext;
use super::dispatcher::Outcome;
use super::dispatcher::OutcomeView;
use vstd::prelude::*;

verus! {

/// The host's reply to an opening frame.
pub open spec fn handshake_reply(
    hello: HelloFrameView,
    ctx: OpContext,
    connection_id: Seq<char>,
) -> HandshakeResultView {
    match negotiated(hello.protocol_min, hello.protocol_max, PROTOCOL_MIN, PROTOCOL_MAX) {
        Err(_) => HandshakeResultView::Incompatible(
            IncompatibleFrameView {
                kind: HandshakeKind::Incompatible,
                host_epoch: ctx.host_epoch@,
                protocol_min: PROTOCOL_MIN,
                protocol_max: PROTOCOL_MAX,
                compatibility_epoch: COMPATIBILITY_EPOCH,
                state: ctx.lifecycle,
                replacement: ReplacementPolicy::BlockedByResidency,
            },
        ),
        Ok(selected) => if ctx.lifecycle is Draining {
            HandshakeResultView::Draining(
                DrainingFrameView { kind: HandshakeKind::Draining, host_epoch: ctx.host_epoch@ },
            )
        } else {
            HandshakeResultView::Accepted(
                AcceptedFrameView {
                    kind: HandshakeKind::Accepted,
                    host_epoch: ctx.host_epoch@,
                    connection_id,
                    selected_protocol: selected,
                    compatibility_epoch: COMPATIBILITY_EPOCH,
                    state: ctx.lifecycle,
                },
            )
        },
    }
}

/// The host's reply to the first frame of a connection; none when it is not
/// `hello`, and the connection is closed without one.
pub open spec fn first_reply(first: JsonView, ctx: OpContext, connection_id: Seq<char>) -> Option<
    HandshakeResultView,
> {
    match client_frame(first) {
        Ok(ClientFrameView::Hello(hello)) => Some(handshake_reply(hello, ctx, connection_id)),
        _ => None,
    }
}

/// The host's reply to the first frame of a connection with the given id. The
/// connection stays open only if the reply is `accepted`.
pub fn handshake_as(connection_id: &str, first: Json, ctx: &OpContext) -> (r: Option<
    HandshakeResult,
>)
    ensures
        match r {
            Some(reply) => first_reply(first@, *ctx, connection_id@) == Some(reply@),
            None => first_reply(first@, *ctx, connection_id@) is None,
        },
{
    let hello = match decode_client_frame(first) {
        Ok(ClientFrame::Hello(h)) => h,
        _ => return None,
    };
    let reply = match negotiate_protocol(
        hello.protocol_min,
        hello.protocol_max,
        PROTOCOL_MIN,
        PROTOCOL_MAX,
    ) {
        Err(_) => HandshakeResult::Incompatible(
            IncompatibleFrame {
                kind: HandshakeKind::Incompatible,
                host_epoch: ctx.host_epoch.clone(),
                protocol_min: PROTOCOL_MIN,
                protocol_max: PROTOCOL_MAX,
                compatibility_epoch: COMPATIBILITY_EPOCH,
                state: ctx.lifecycle,
                replacement: ReplacementPolicy::BlockedByResidency,
            },
        ),
        Ok(selected) => match ctx.lifecycle {
            LifecycleState::Draining => HandshakeResult::Draining(
                DrainingFrame::new(ctx.host_epoch.as_str()),
            ),
            _ => HandshakeResult::Accepted(
                AcceptedFrame::new(
                    ctx.host_epoch.as_str(),
                    connection_id,
                    selected,
                    COMPATIBILITY_EPOCH,
                    ctx.lifecycle,
                ),
            ),
        },
    };
    Some(reply)
}

/// The host's reply to the first frame of a new connection, which gets a fresh
/// id.
pub fn handshake(first: Json, ctx: &OpContext) -> (r: Option<HandshakeResult>)
    ensures
        match r {
            Some(reply) => exists|id: Seq<char>|
                is_uuid_text(id) && #[trigger] first_reply(first@, *ctx, id) == Some(reply@),
            None => forall|id: Seq<char>| #[trigger] first_reply(first@, *ctx, id) is None,
        },
{
    let id = fresh_id();
    let r = handshake_as(id.as_str(), first, ctx);
    assert(is_uuid_text(id@) && match r {
        Some(reply) => first_reply(first@, *ctx, id@) == Some(reply@),
        None => first_reply(first@, *ctx, id@) is None,
    });
    r
}

/// An accepted client is never told that the host is draining, and speaks a
/// version that both sides support.
pub proof fn law_accepted_state_is_live(
    hello: HelloFrameView,
    ctx: OpContext,
    connection_id: Seq<char>,
)
    ensures
        handshake_reply(hello, ctx, connection_id) matches HandshakeResultView::Accepted(f) ==> {
            &&& !(f.state is Draining)
            &&& hello.protocol_min <= f.selected_protocol <= hello.protocol_max
            &&& PROTOCOL_MIN <= f.selected_protocol <= PROTOCOL_MAX
        },
{
}

/// The request that a frame of an accepted connection carries, if it is one: a
/// second hello and stray frames are ignored.
pub open spec fn request_in(frame: JsonView) -> Option<RequestFrameView> {
    match client_frame(frame) {
        Ok(ClientFrameView::Request(r)) => Some(r),
        _ => None,
    }
}

/// The request that a frame of an accepted connection carries, if it is one.
pub fn next_request(frame: Json) -> (r: Option<RequestFrame>)
    ensures
        match r {
            Some(req) => request_in(frame@) == Some(req@),
            None => request_in(frame@) is None,
        },
{
    match decode_client_frame(frame) {
        Ok(ClientFrame::Request(req)) => Some(req),
        _ => None,
    }
}

/// What the host does with a request: run the handler of its operation, or answer
/// that there is none.
pub enum Routed<'a, H> {
    Run(&'a H),
    Answer(Json),
}

/// Finds the handler of a request.
pub fn route<'a, H>(dispatcher: &'a Dispatcher<H>, req: &RequestFrame) -> (r: Routed<'a, H>)
    requires
        dispatcher.wf(),
    ensures
        match r {
            Routed::Run(h) => dispatcher.registry().contains_key(req@.operation) && *h
                == dispatcher.registry()[req@.operation],
            Routed::Answer(v) => !dispatcher.registry().contains_key(req@.operation) && v@
                == response_to(
                req@.request_id,
                req@.operation,
                unknown_operation(req@.operation),
            ).json(),
        },
{
    match dispatcher.dispatch(req.operation.as_str()) {
        Ok(h) => Routed::Run(h),
        Err(outcome) => Routed::Answer(
            respond(req.request_id.as_str(), req.operation.as_str(), outcome).to_json(),
        ),
    }
}

/// The frame that answers a request with its handler's outcome.
pub open spec fn answer_json(req: RequestFrameView, outcome: OutcomeView) -> JsonView {
    response_to(req.request_id, req.operation, declared_outcome(req.operation, outcome)).json()
}

/// The frame that answers a request with its handler's outcome.
pub fn answer(req: &RequestFrame, outcome: Outcome) -> (r: Json)
    ensures
        r@ == answer_json(req@, outcome@),
{
    let declared = enforce_declared(req.operation.as_str(), outcome);
    respond(req.request_id.as_str(), req.operation.as_str(), declared).to_json()
}

/// Every request is answered under its own id and operation by a frame that the
/// client reads as a well-formed response, unless the result is `null`.
pub proof fn law_answer_reads_back(req: RequestFrameView, outcome: OutcomeView)
    requires
        outcome != OutcomeView::Success(JsonView::Null),
    ensures
        crate::protocol::envelope::host_frame(answer_json(req, outcome)) == Ok::<
            crate::protocol::envelope::HostFrameView,
            FrameFault,
        >(
            crate::protocol::envelope::HostFrameView::Response(
                response_to(req.request_id, req.operation, declared_outcome(req.operation, outcome)),
            ),
        ),
{
    crate::protocol::envelope::law_response_reads_back(
        response_to(req.request_id, req.operation, declared_outcome(req.operation, outcome)),
    );
}

// ---------------------------------------------------------------------------
// One connection
// ---------------------------------------------------------------------------

/// Where a connection stands.
#[derive(Debug, Clone, Copy, PartialEq, Eq, Structural)]
pub enum ConnectionPhase {
    /// The client has not been answered yet.
    Greeting,
    /// The client was accepted.
    Serving,
    /// Nothing more is read or written.
    Closed,
}

/// What the host does with what it read.
#[derive(Debug)]
pub enum ConnectionAction {
    /// Close the connection.
    Close,
    /// Send this frame, then close the connection.
    Refuse(Json),
    /// Send this frame; requests follow.
    Accept(Json),
    /// Dispatch this request and send its answer.
    Serve(RequestFrame),
    /// Read on.
    Ignore,
}

/// What a [`ConnectionAction`] says.
pub enum ConnectionActionView {
    Close,
    Refuse(JsonView),
    Accept(JsonView),
    Serve(RequestFrameView),
    Ignore,
}

impl View for ConnectionAction {
    type V = ConnectionActionView;

    open spec fn view(&self) -> ConnectionActionView {
        match *self {
            ConnectionAction::Close => ConnectionActionView::Close,
            ConnectionAction::Refuse(v) => ConnectionActionView::Refuse(v@),
            ConnectionAction::Accept(v) => ConnectionActionView::Accept(v@),
            ConnectionAction::Serve(r) => ConnectionActionView::Serve(r@),
            ConnectionAction::Ignore => ConnectionActionView::Ignore,
        }
    }
}

/// What the host does with a frame, or with the end of the stream or a framing
/// fault, which are no frame.
pub open spec fn connection_action(
    phase: ConnectionPhase,
    ctx: OpContext,
    connection_id: Seq<char>,
    frame: Option<JsonView>,
) -> ConnectionActionView {
    match (phase, frame) {
        (ConnectionPhase::Closed, _) => ConnectionActionView::Close,
        (_, None) => ConnectionActionView::Close,
        (ConnectionPhase::Greeting, Some(v)) => match first_reply(v, ctx, connection_id) {
            None => ConnectionActionView::Close,
            Some(reply) => if reply is Accepted {
                ConnectionActionView::Accept(reply.json())
            } else {
                ConnectionActionView::Refuse(reply.json())
            },
        },
        (ConnectionPhase::Serving, Some(v)) => match request_in(v) {
            Some(req) => ConnectionActionView::Serve(req),
            None => ConnectionActionView::Ignore,
        },
    }
}

/// Where a connection stands behind an action.
pub open spec fn phase_after(phase: ConnectionPhase, action: ConnectionActionView) ->
    ConnectionPhase {
    match action {
        ConnectionActionView::Close | ConnectionActionView::Refuse(_) => ConnectionPhase::Closed,
        ConnectionActionView::Accept(_) => ConnectionPhase::Serving,
        _ => phase,
    }
}

/// One connection.
pub struct Connection {
    phase: ConnectionPhase,
}

impl Connection {
    pub closed spec fn phase(&self) -> ConnectionPhase {
        self.phase
    }

    pub fn new() -> (r: Self)
        ensures
            r.phase() is Greeting,
    {
        Connection { phase: ConnectionPhase::Greeting }
    }

    /// Takes in what was read: a frame, or none when the stream has ended or the
    /// framing is at fault. An accepted connection has the id `connection_id`.
    pub fn receive_as(&mut self, connection_id: &str, ctx: &OpContext, frame: Option<Json>) -> (r:
        ConnectionAction)
        ensures
            r@ == connection_action(
                old(self).phase(),
                *ctx,
                connection_id@,
                crate::json::opt(frame),
            ),
            final(self).phase() == phase_after(old(self).phase(), r@),
    {
        let action = match (self.phase, frame) {
            (ConnectionPhase::Closed, _) => ConnectionAction::Close,
            (_, None) => ConnectionAction::Close,
            (ConnectionPhase::Greeting, Some(v)) => match handshake_as(connection_id, v, ctx) {
                None => ConnectionAction::Close,
                Some(reply) => match &reply {
                    HandshakeResult::Accepted(_) => ConnectionAction::Accept(reply.to_json()),
                    _ => ConnectionAction::Refuse(reply.to_json()),
                },
            },
            (ConnectionPhase::Serving, Some(v)) => match next_request(v) {
                Some(req) => ConnectionAction::Serve(req),
                None => ConnectionAction::Ignore,
            },
        };
        match &action {
            ConnectionAction::Close | ConnectionAction::Refuse(_) => {
                self.phase = ConnectionPhase::Closed;
            },
            ConnectionAction::Accept(_) => {
                self.phase = ConnectionPhase::Serving;
            },
            _ => {},
        }
        action
    }

    /// As [`Connection::receive_as`], with a fresh id.
    pub fn receive(&mut self, ctx: &OpContext, frame: Option<Json>) -> (r: ConnectionAction)
        ensures
            exists|id: Seq<char>|
                is_uuid_text(id) && r@ == #[trigger] connection_action(
                    old(self).phase(),
                    *ctx,
                    id,
                    crate::json::opt(frame),
                ),
            final(self).phase() == phase_after(old(self).phase(), r@),
    {
        let id = fresh_id();
        self.receive_as(id.as_str(), ctx, frame)
    }
}

/// No request is served before the client was accepted or after the connection was
/// closed, and a client is answered at most one handshake.
pub proof fn law_requests_follow_acceptance(
    phase: ConnectionPhase,
    ctx: OpContext,
    connection_id: Seq<char>,
    frame: Option<JsonView>,
)
    ensures
        connection_action(phase, ctx, connection_id, frame) is Serve ==> phase is Serving,
        connection_action(phase, ctx, connection_id, frame) is Accept || connection_action(
            phase,
            ctx,
            connection_id,
            frame,
        ) is Refuse ==> phase is Greeting && !(phase_after(
            phase,
            connection_action(phase, ctx, connection_id, frame),
        ) is Greeting),
        phase is Closed ==> connection_action(phase, ctx, connection_id, frame) is Close,
{
}

/// How a host greets: a client whose range does not meet the host's is told that range and
/// may not replace the host; one that a draining host could serve is told that it drains;
/// any other is accepted under the connection's id, in the host's own state, at the highest
/// version of both; and every reply carries the host's epoch and its own kind.
pub proof fn law_hosts_greet(hello: HelloFrameView, ctx: OpContext, connection_id: Seq<char>)
    ensures
        ({
            let reply = handshake_reply(hello, ctx, connection_id);
            let meets = hello.protocol_min <= hello.protocol_max && hello.protocol_min
                <= PROTOCOL_MAX && PROTOCOL_MIN <= hello.protocol_max;
            &&& reply is Incompatible <==> !meets
            &&& reply is Draining <==> meets && ctx.lifecycle is Draining
            &&& reply is Accepted <==> meets && !(ctx.lifecycle is Draining)
            &&& match reply {
                HandshakeResultView::Accepted(f) => {
                    &&& f.kind is Accepted
                    &&& f.host_epoch == ctx.host_epoch@
                    &&& f.connection_id == connection_id
                    &&& f.state == ctx.lifecycle
                    &&& f.compatibility_epoch == COMPATIBILITY_EPOCH
                    &&& f.selected_protocol == (if hello.protocol_max < PROTOCOL_MAX {
                        hello.protocol_max
                    } else {
                        PROTOCOL_MAX
                    })
                },
                HandshakeResultView::Incompatible(f) => {
                    &&& f.kind is Incompatible
                    &&& f.host_epoch == ctx.host_epoch@
                    &&& f.protocol_min == PROTOCOL_MIN
                    &&& f.protocol_max == PROTOCOL_MAX
                    &&& f.compatibility_epoch == COMPATIBILITY_EPOCH
                    &&& f.state == ctx.lifecycle
                    &&& f.replacement is BlockedByResidency
                },
                HandshakeResultView::Draining(f) => f.kind is Draining && f.host_epoch
                    == ctx.host_epoch@,
            }
        }),
        PROTOCOL_MIN == 0 && PROTOCOL_MAX == 0 && COMPATIBILITY_EPOCH == 10,
{
}

/// Only an opening frame is greeted, and only a request is served.
pub proof fn law_frames_are_taken_for_what_they_are(
    v: JsonView,
    ctx: OpContext,
    connection_id: Seq<char>,
)
    ensures
        first_reply(v, ctx, connection_id) is Some ==> v.text_at("kind"@) == Some("hello"@),
        request_in(v) matches Some(r) ==> v.text_at("kind"@) is None && v.text_at("requestId"@) == Some(
            r.request_id,
        ) && v.text_at("operation"@) == Some(r.operation) && v.get("input"@) == Some(r.input),
{
}

/// A connection is greeted once and then served: the end of the stream and a frame that is
/// no greeting close it before it is accepted, a refused greeting closes it behind the
/// reply, an accepted one lets it be served; from then on requests are served, other frames
/// are passed over, and a closed connection stays closed.
pub proof fn law_connections_are_greeted_then_served(
    phase: ConnectionPhase,
    ctx: OpContext,
    connection_id: Seq<char>,
    frame: Option<JsonView>,
)
    ensures
        ({
            let action = connection_action(phase, ctx, connection_id, frame);
            let after = phase_after(phase, action);
            &&& phase is Closed ==> action is Close
            &&& frame is None ==> action is Close
            &&& action is Close || action is Refuse ==> after is Closed
            &&& action is Accept <==> phase is Greeting && after is Serving
            &&& action is Serve || action is Ignore ==> phase is Serving && after is Serving
            &&& frame matches Some(v) ==> {
                &&& phase is Greeting ==> match first_reply(v, ctx, connection_id) {
                    Some(reply) => action == (if reply is Accepted {
                        ConnectionActionView::Accept(reply.json())
                    } else {
                        ConnectionActionView::Refuse(reply.json())
                    }),
                    None => action is Close,
                }
                &&& phase is Serving ==> match request_in(v) {
                    Some(req) => action == ConnectionActionView::Serve(req),
                    None => action is Ignore,
                }
            }
        }),
{
}

} // verus!
