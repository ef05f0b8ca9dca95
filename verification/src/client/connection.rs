//! Host client: the `hello`/`accepted` handshake, then typed requests. Frames that
//! arrive between a request and its response are subscription pushes; they are
//! kept in order.

use crate::ids::fresh_id;
use crate::ids::is_uuid_text;
use crate::json::items_view;
use crate::json::Json;
use crate::json::JsonView;
use crate::protocol::codec::CodecError;
use crate::protocol::envelope::decode_host_frame;
use crate::protocol::envelope::host_frame;
use crate::protocol::envelope::reports;
use crate::protocol::envelope::HostFrame;
use crate::protocol::envelope::HostFrameView;
use crate::protocol::envelope::RequestFrame;
use crate::protocol::envelope::RequestFrameView;
use crate::protocol::envelope::ResponseFrame;
use crate::protocol::envelope::ResponseFrameView;
use crate::protocol::errors::OpErrorCode;
use crate::protocol::errors::ProtocolError;
use crate::protocol::handshake::HandshakeKind;
use crate::protocol::handshake::HandshakeSurface;
use crate::protocol::handshake::HelloFrame;
use crate::protocol::handshake::HelloFrameView;
use crate::protocol::versions::COMPATIBILITY_EPOCH;
use crate::protocol::versions::PROTOCOL_MAX;
use crate::protocol::versions::PROTOCOL_MIN;
use crate::text::str_eq;
use vstd::prelude::*;

verus! {

/// Errors from the client side: transport, framing or decode faults, or an
/// operation-level failure returned by the host.
#[derive(Debug)]
pub enum ClientError {
    Io(std::io::Error),
    Closed,
    Framing(CodecError),
    Protocol(ProtocolError),
    Handshake(String),
    Operation { operation: String, code: OpErrorCode, message: String },
}

/// The opening frame that a client with the given instance id sends.
pub open spec fn hello(client_instance_id: Seq<char>) -> HelloFrameView {
    HelloFrameView {
        kind: HandshakeKind::Hello,
        client_instance_id,
        surface: HandshakeSurface::Run,
        protocol_min: PROTOCOL_MIN,
        protocol_max: PROTOCOL_MAX,
        compatibility_epoch: COMPATIBILITY_EPOCH,
    }
}

/// The opening frame of a new client.
pub fn opening_frame() -> (r: HelloFrame)
    ensures
        is_uuid_text(r.client_instance_id@),
        r@ == hello(r.client_instance_id@),
{
    HelloFrame::new(
        fresh_id().as_str(),
        HandshakeSurface::Run,
        PROTOCOL_MIN,
        PROTOCOL_MAX,
        COMPATIBILITY_EPOCH,
    )
}

/// The error says why the handshake failed.
pub open spec fn handshake_refused(e: ClientError, frame: JsonView) -> bool {
    match host_frame(frame) {
        Err(fault) => e matches ClientError::Protocol(p) && reports(p, fault),
        Ok(HostFrameView::Accepted(_)) => false,
        Ok(HostFrameView::Draining(_)) => e matches ClientError::Handshake(m) && m@
            == "host draining"@,
        Ok(HostFrameView::Incompatible(_)) => e matches ClientError::Handshake(m) && m@
            == "protocol incompatible"@,
        Ok(_) => e matches ClientError::Handshake(m) && m@ == "unexpected handshake reply"@,
    }
}

/// What the host's reply to `hello` comes to: the host epoch, or why it was
/// refused.
pub fn handshake_reply(frame: Json) -> (r: Result<String, ClientError>)
    ensures
        match r {
            Ok(epoch) => host_frame(frame@) matches Ok(HostFrameView::Accepted(f)) && epoch@
                == f.host_epoch,
            Err(e) => handshake_refused(e, frame@),
        },
{
    match decode_host_frame(frame) {
        Err(e) => Err(ClientError::Protocol(e)),
        Ok(HostFrame::Accepted(f)) => Ok(f.host_epoch),
        Ok(HostFrame::Draining(_)) => Err(ClientError::Handshake("host draining".to_owned())),
        Ok(HostFrame::Incompatible(_)) => Err(
            ClientError::Handshake("protocol incompatible".to_owned()),
        ),
        Ok(_) => Err(ClientError::Handshake("unexpected handshake reply".to_owned())),
    }
}

/// What a frame means for a request that waits for its response.
pub enum Progress {
    /// The response has not arrived yet.
    Pending,
    /// The response has arrived.
    Done(Result<Json, ClientError>),
}

/// The response of a request says what it came to.
pub open spec fn settles(
    r: Result<Json, ClientError>,
    operation: Seq<char>,
    response: ResponseFrameView,
) -> bool {
    if response.ok {
        match response.result {
            Some(v) => r matches Ok(got) && got@ == v,
            None => r matches Err(ClientError::Handshake(m)) && m@ == "ok response without result"@,
        }
    } else {
        &&& r matches Err(ClientError::Operation { operation: op, code, message })
        &&& op@ == operation
        &&& response.error matches Some(e)
        &&& code == e.code
        &&& message@ == e.message
    }
}

/// A client's subscription frames that arrived while it awaited responses.
pub struct HostClient {
    streamed: Vec<Json>,
}

impl HostClient {
    /// The collected frames, oldest first.
    pub closed spec fn streamed(&self) -> Seq<JsonView> {
        items_view(self.streamed@)
    }

    pub fn new() -> (r: Self)
        ensures
            r.streamed() == Seq::<JsonView>::empty(),
    {
        let r = HostClient { streamed: Vec::new() };
        assert(r.streamed() =~= Seq::<JsonView>::empty());
        r
    }

    /// The request frame for an operation, under a fresh id.
    pub fn request(&self, operation: &str, input: Json) -> (r: RequestFrame)
        ensures
            is_uuid_text(r.request_id@),
            r@ == (RequestFrameView {
                request_id: r.request_id@,
                operation: operation@,
                input: input@,
            }),
    {
        RequestFrame { request_id: fresh_id(), operation: operation.to_owned(), input }
    }

    /// Takes in a frame while `request` waits for its response: the response
    /// settles it, subscription frames are collected, anything else is skipped.
    pub fn receive(&mut self, request: &RequestFrame, frame: Json) -> (r: Progress)
        ensures
            match host_frame(frame@) {
                Err(fault) => r matches Progress::Done(Err(ClientError::Protocol(p))) && reports(
                    p,
                    fault,
                ) && final(self).streamed() == old(self).streamed(),
                Ok(HostFrameView::Response(response)) => final(self).streamed() == old(self).streamed() && (if response.request_id == request@.request_id {
                    r matches Progress::Done(result) && settles(
                        result,
                        request@.operation,
                        response,
                    )
                } else {
                    r is Pending
                }),
                Ok(HostFrameView::Subscription(v)) => r is Pending && final(self).streamed() == old(self).streamed().push(v),
                Ok(_) => r is Pending && final(self).streamed() == old(self).streamed(),
            },
    {
        match decode_host_frame(frame) {
            Err(e) => Progress::Done(Err(ClientError::Protocol(e))),
            Ok(HostFrame::Response(response)) => if str_eq(
                response.request_id.as_str(),
                request.request_id.as_str(),
            ) {
                Progress::Done(settle(request.operation.as_str(), response))
            } else {
                Progress::Pending
            },
            Ok(HostFrame::Subscription(v)) => {
                let ghost before = self.streamed();
                let ghost added = v@;
                self.streamed.push(v);
                assert(self.streamed() =~= before.push(added));
                Progress::Pending
            },
            Ok(_) => Progress::Pending,
        }
    }

    /// Hands out the collected frames.
    pub fn take_streamed(&mut self) -> (r: Vec<Json>)
        ensures
            items_view(r@) == old(self).streamed(),
            final(self).streamed() == Seq::<JsonView>::empty(),
    {
        let mut out: Vec<Json> = Vec::new();
        let ghost before = self.streamed();
        out.append(&mut self.streamed);
        assert(items_view(out@) =~= before);
        assert(self.streamed() =~= Seq::<JsonView>::empty());
        out
    }
}

/// What a well-formed response comes to.
fn settle(operation: &str, response: ResponseFrame) -> (r: Result<Json, ClientError>)
    requires
        response@.valid(),
    ensures
        settles(r, operation@, response@),
{
    if response.ok {
        match response.result {
            Some(v) => Ok(v),
            None => Err(ClientError::Handshake("ok response without result".to_owned())),
        }
    } else {
        match response.error {
            Some(e) => Err(
                ClientError::Operation {
                    operation: operation.to_owned(),
                    code: e.code,
                    message: e.message,
                },
            ),
            None => Err(
                ClientError::Operation {
                    operation: operation.to_owned(),
                    code: OpErrorCode::InternalFailure,
                    message: "no error payload".to_owned(),
                },
            ),
        }
    }
}

/// The subscription frame that a frame is, if it is one; responses and others are
/// skipped.
pub fn streamed_frame(frame: Json) -> (r: Option<Json>)
    ensures
        match r {
            Some(v) => host_frame(frame@) matches Ok(HostFrameView::Subscription(s)) && v@ == s,
            None => !(host_frame(frame@) matches Ok(HostFrameView::Subscription(_))),
        },
{
    match decode_host_frame(frame) {
        Ok(HostFrame::Subscription(v)) => Some(v),
        _ => None,
    }
}

/// A client and the host agree: the host accepts what a client of this version
/// opens with, unless it is draining, and the client then learns the host's epoch.
pub proof fn law_own_hello_is_accepted(
    client_instance_id: Seq<char>,
    ctx: crate::server::dispatcher::OpContext,
    connection_id: Seq<char>,
)
    requires
        !(ctx.lifecycle is Draining),
    ensures
        crate::server::connection::first_reply(
            hello(client_instance_id).json(),
            ctx,
            connection_id,
        ) matches Some(reply) && (reply matches crate::protocol::handshake::HandshakeResultView::Accepted(
            f,
        ) && f.host_epoch == ctx.host_epoch@ && host_frame(f.json()) == Ok::<
            HostFrameView,
            crate::protocol::envelope::FrameFault,
        >(HostFrameView::Accepted(f))),
{
    let h = hello(client_instance_id);
    crate::protocol::envelope::law_hello_reads_back(h);
    let reply = crate::server::connection::handshake_reply(h, ctx, connection_id);
    let f = reply->Accepted_0;
    f.lemma_round_trip();
    assert(f.json().get("kind"@) == Some(HandshakeKind::Accepted.json()));
}

/// What a response comes to for the request that waits for it: its result, or the
/// operation with the host's own code and message.
pub proof fn law_responses_settle_requests(
    r: Result<Json, ClientError>,
    operation: Seq<char>,
    response: ResponseFrameView,
)
    requires
        response.valid(),
        settles(r, operation, response),
    ensures
        r is Ok <==> response.ok && response.result is Some,
        r matches Ok(v) ==> Some(v@) == response.result,
        !response.ok ==> (r matches Err(ClientError::Operation { operation: op, code, message })
            && op@ == operation && Some(code) == (match response.error {
            Some(e) => Some(e.code),
            None => None,
        }) && Some(message@) == (match response.error {
            Some(e) => Some(e.message),
            None => None,
        })),
{
}

/// A client opens as itself, from the command line, with the versions that it speaks.
pub proof fn law_clients_open_as_themselves(client_instance_id: Seq<char>)
    ensures
        hello(client_instance_id).kind is Hello,
        hello(client_instance_id).client_instance_id == client_instance_id,
        hello(client_instance_id).surface is Run,
        hello(client_instance_id).protocol_min == 0,
        hello(client_instance_id).protocol_max == 0,
        hello(client_instance_id).compatibility_epoch == 10,
{
}

/// A handshake succeeds exactly where the host accepts, with the host's epoch; a host that
/// drains, one that speaks no common version and any other frame are told apart.
pub proof fn law_handshakes_succeed_where_accepted(frame: Json, r: Result<String, ClientError>)
    requires
        call_ensures(handshake_reply, (frame,), r),
    ensures
        match host_frame(frame@) {
            Ok(HostFrameView::Accepted(f)) => r matches Ok(epoch) && epoch@ == f.host_epoch,
            Ok(HostFrameView::Draining(_)) => r matches Err(ClientError::Handshake(m)) && m@
                == "host draining"@,
            Ok(HostFrameView::Incompatible(_)) => r matches Err(ClientError::Handshake(m)) && m@
                == "protocol incompatible"@,
            Ok(_) => r matches Err(ClientError::Handshake(m)) && m@ == "unexpected handshake reply"@,
            Err(fault) => r matches Err(ClientError::Protocol(p)) && reports(p, fault),
        },
{
}

} // verus!
