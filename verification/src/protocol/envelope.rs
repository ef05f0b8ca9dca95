//! Frame envelopes and `kind` routing.
//!
//! The socket carries two frame vocabularies: [`ClientFrame`] (`hello`, request)
//! and [`HostFrame`] (`accepted`, `incompatible`, `draining`, response,
//! `subscription.*`, `configuration.changed`, `session.catalog.changed`).
//!
//! Discrimination is by a `kind` string member when present; request and response
//! frames carry no `kind` and are the fallback. Each concrete frame is a closed
//! schema; the router reads `kind`, then reads the value as the specific frame.

use crate::json::Field;
use crate::json::Json;
use crate::json::JsonView;
use crate::json::ObjectBuilder;
use crate::json::opt;
use crate::json::present;
use crate::json::sound;
use crate::schema::bool_at;
use crate::schema::clone_opt_json;
use crate::schema::has_only_keys;
use crate::schema::key_views;
use crate::schema::keys_ascend;
use crate::schema::lemma_absent;
use crate::schema::lemma_lookup;
use crate::schema::lemma_only_keys;
use crate::schema::lemma_sound_object;
use crate::schema::lemma_step_ascends;
use crate::schema::only_keys;
use crate::schema::opt_at;
use crate::schema::optional;
use crate::schema::read_bool;
use crate::schema::read_opt_json;
use crate::schema::read_optional;
use crate::text::chars_of;
use crate::text::concat3;
use crate::text::lt_at;
use crate::text::starts_with;
use crate::text::str_eq;
use crate::text::text_lt;
use super::errors::OperationError;
use super::errors::OperationErrorView;
use super::errors::ProtocolError;
use super::handshake::AcceptedFrame;
use super::handshake::AcceptedFrameView;
use super::handshake::DrainingFrame;
use super::handshake::DrainingFrameView;
use super::handshake::HandshakeKind;
use super::handshake::HelloFrame;
use super::handshake::HelloFrameView;
use super::handshake::IncompatibleFrame;
use super::handshake::IncompatibleFrameView;
use crate::schema::listed_members;
use crate::schema::struct_form;
use vstd::prelude::*;

verus! {

/// Client-to-host request frame. `input` is operation-specific.
#[derive(Debug, PartialEq)]
pub struct RequestFrame {
    pub request_id: String,
    pub operation: String,
    pub input: Json,
}

/// What a [`RequestFrame`] says.
pub struct RequestFrameView {
    pub request_id: Seq<char>,
    pub operation: Seq<char>,
    pub input: JsonView,
}

impl View for RequestFrame {
    type V = RequestFrameView;

    open spec fn view(&self) -> RequestFrameView {
        RequestFrameView {
            request_id: self.request_id@,
            operation: self.operation@,
            input: self.input@,
        }
    }
}

impl Clone for RequestFrame {
    fn clone(&self) -> (r: Self)
        ensures
            r@ == self@,
    {
        RequestFrame {
            request_id: self.request_id.clone(),
            operation: self.operation.clone(),
            input: self.input.clone(),
        }
    }
}

impl RequestFrameView {
    /// The members of the JSON object, in key order.
    pub open spec fn fields(self) -> Seq<Field> {
        Seq::empty()
            .push(("input"@, Some(self.input)))
            .push(("operation"@, Some(JsonView::Text(self.operation))))
            .push(("requestId"@, Some(JsonView::Text(self.request_id))))
    }

    pub open spec fn json(self) -> JsonView {
        JsonView::Object(present(self.fields()))
    }

    /// The only keys the object may have.
    pub open spec fn keys() -> Seq<Seq<char>> {
        seq!["input"@, "operation"@, "requestId"@]
    }

    /// The members in the order of declaration.
    pub open spec fn order() -> Seq<Seq<char>> {
        seq!["requestId"@, "operation"@, "input"@]
    }

    /// What the JSON value `v` says; `None` when it is neither such an object nor a list
    /// of its members.
    pub open spec fn of_json(v: JsonView) -> Option<RequestFrameView> {
        RequestFrameView::of_object(struct_form(v, RequestFrameView::order(), 3))
    }

    /// What the JSON object `v` says; `None` when it is no such object.
    pub open spec fn of_object(v: JsonView) -> Option<RequestFrameView> {
        let request_id = v.text_at("requestId"@);
        let operation = v.text_at("operation"@);
        let input = v.get("input"@);
        if only_keys(v, RequestFrameView::keys()) && request_id is Some && operation is Some && input is Some {
            Some(
                RequestFrameView {
                    request_id: request_id->0,
                    operation: operation->0,
                    input: input->0,
                },
            )
        } else {
            None
        }
    }

    proof fn lemma_keys(self)
        ensures
            keys_ascend(self.fields()),
    {
        assert(text_lt("input"@, "operation"@)) by {
            reveal_strlit("input");
            reveal_strlit("operation");
            assert(lt_at("input"@, "operation"@, 0));
        };
        assert(text_lt("operation"@, "requestId"@)) by {
            reveal_strlit("operation");
            reveal_strlit("requestId");
            assert(lt_at("operation"@, "requestId"@, 0));
        };
        lemma_step_ascends(self.fields());
    }

    /// Reading what was written gives the same value back.
    pub proof fn lemma_round_trip(self)
        ensures
            RequestFrameView::of_json(self.json()) == Some(self),
            self.json().get("input"@) == (Some(self.input)),
            self.json().get("operation"@) == (Some(JsonView::Text(self.operation))),
            self.json().get("requestId"@) == (Some(JsonView::Text(self.request_id))),
    {
        let f = self.fields();
        self.lemma_keys();
        assert(self.json().get("input"@) == Some(self.input)) by {
            lemma_lookup(f, 0);
        };
        assert(self.json().get("operation"@) == Some(JsonView::Text(self.operation))) by {
            lemma_lookup(f, 1);
        };
        assert(self.json().get("requestId"@) == Some(JsonView::Text(self.request_id))) by {
            lemma_lookup(f, 2);
        };
        assert(RequestFrameView::keys()[0] == "input"@);
        assert(RequestFrameView::keys()[1] == "operation"@);
        assert(RequestFrameView::keys()[2] == "requestId"@);
        lemma_only_keys(f, RequestFrameView::keys());
    }

    /// Every embedded JSON value fits an object nested `n` levels deep.
    pub open spec fn embeds_sound(self, n: int) -> bool {
        &&& sound(self.input, n - 1)
    }

    /// The JSON object reads back from its text.
    pub proof fn lemma_sound(self, n: int)
        requires
            n >= 1,
            self.embeds_sound(n),
        ensures
            sound(self.json(), n),
    {
        self.lemma_keys();
        lemma_sound_object(self.fields(), n);
    }
}

impl RequestFrame {
    /// The JSON object for this value.
    pub fn to_json(&self) -> (r: Json)
        ensures
            r@ == self@.json(),
    {
        let mut b = ObjectBuilder::new();
        b.put("input", self.input.clone());
        b.put_text("operation", self.operation.as_str());
        b.put_text("requestId", self.request_id.as_str());
        assert(b.fields() == self@.fields());
        b.build()
    }

    /// Reads the value back from its JSON object, or from a list of its members in the
    /// order of declaration; unknown members are refused.
    pub fn from_json(v: &Json) -> (r: Option<RequestFrame>)
        ensures
            match r {
                Some(x) => RequestFrameView::of_json(v@) == Some(x@),
                None => RequestFrameView::of_json(v@) is None,
            },
    {
        let names: [&str; 3] = ["requestId", "operation", "input"];
        assert(key_views(names@) =~= RequestFrameView::order());
        match listed_members(v, &names, 3) {
            Some(o) => RequestFrame::from_object(&o),
            None => RequestFrame::from_object(v),
        }
    }

    fn from_object(v: &Json) -> (r: Option<RequestFrame>)
        ensures
            match r {
                Some(x) => RequestFrameView::of_object(v@) == Some(x@),
                None => RequestFrameView::of_object(v@) is None,
            },
    {
        let keys: [&str; 3] = ["input", "operation", "requestId"];
        assert(key_views(keys@) =~= RequestFrameView::keys());
        if !has_only_keys(v, &keys) {
            return None;
        }
        let request_id = match v.text_at("requestId") {
            Some(x) => x,
            None => return None,
        };
        let operation = match v.text_at("operation") {
            Some(x) => x,
            None => return None,
        };
        let input = match v.get("input") {
            Some(x) => x.clone(),
            None => return None,
        };
        Some(RequestFrame { request_id, operation, input })
    }
}

/// Host-to-client response frame. Exactly one of `result` and `error` is present
/// depending on `ok`; see [`ResponseFrame::validate`].
#[derive(Debug, PartialEq)]
pub struct ResponseFrame {
    pub request_id: String,
    pub operation: String,
    pub ok: bool,
    pub result: Option<Json>,
    pub error: Option<OperationError>,
}

/// What a [`ResponseFrame`] says.
pub struct ResponseFrameView {
    pub request_id: Seq<char>,
    pub operation: Seq<char>,
    pub ok: bool,
    pub result: Option<JsonView>,
    pub error: Option<OperationErrorView>,
}

impl View for ResponseFrame {
    type V = ResponseFrameView;

    open spec fn view(&self) -> ResponseFrameView {
        ResponseFrameView {
            request_id: self.request_id@,
            operation: self.operation@,
            ok: self.ok,
            result: opt(self.result),
            error: opt(self.error),
        }
    }
}

impl Clone for ResponseFrame {
    fn clone(&self) -> (r: Self)
        ensures
            r@ == self@,
    {
        ResponseFrame {
            request_id: self.request_id.clone(),
            operation: self.operation.clone(),
            ok: self.ok,
            result: clone_opt_json(&self.result),
            error: match &self.error {
                Some(x) => Some(x.clone()),
                None => None,
            },
        }
    }
}

impl ResponseFrameView {
    /// The members of the JSON object, in key order.
    pub open spec fn fields(self) -> Seq<Field> {
        Seq::empty()
            .push(("error"@, match self.error { Some(x) => Some(x.json()), None => None }))
            .push(("ok"@, Some(JsonView::Bool(self.ok))))
            .push(("operation"@, Some(JsonView::Text(self.operation))))
            .push(("requestId"@, Some(JsonView::Text(self.request_id))))
            .push(("result"@, self.result))
    }

    pub open spec fn json(self) -> JsonView {
        JsonView::Object(present(self.fields()))
    }

    /// No optional member is the JSON value `null`, which reads back as absent.
    pub open spec fn lossless(self) -> bool {
        &&& self.result != Some(JsonView::Null)
    }

    /// The only keys the object may have.
    pub open spec fn keys() -> Seq<Seq<char>> {
        seq!["error"@, "ok"@, "operation"@, "requestId"@, "result"@]
    }

    /// The members in the order of declaration.
    pub open spec fn order() -> Seq<Seq<char>> {
        seq!["requestId"@, "operation"@, "ok"@, "result"@, "error"@]
    }

    /// What the JSON value `v` says; `None` when it is neither such an object nor a list
    /// of its members.
    pub open spec fn of_json(v: JsonView) -> Option<ResponseFrameView> {
        ResponseFrameView::of_object(struct_form(v, ResponseFrameView::order(), 5))
    }

    /// What the JSON object `v` says; `None` when it is no such object.
    pub open spec fn of_object(v: JsonView) -> Option<ResponseFrameView> {
        let request_id = v.text_at("requestId"@);
        let operation = v.text_at("operation"@);
        let ok = bool_at(v, "ok"@);
        let result = Some(optional(v, "result"@));
        let error = opt_at(v, "error"@, |j: JsonView| OperationErrorView::of_json(j));
        if only_keys(v, ResponseFrameView::keys()) && request_id is Some && operation is Some && ok is Some && error is Some {
            Some(
                ResponseFrameView {
                    request_id: request_id->0,
                    operation: operation->0,
                    ok: ok->0,
                    result: result->0,
                    error: error->0,
                },
            )
        } else {
            None
        }
    }

    proof fn lemma_keys(self)
        ensures
            keys_ascend(self.fields()),
    {
        assert(text_lt("error"@, "ok"@)) by {
            reveal_strlit("error");
            reveal_strlit("ok");
            assert(lt_at("error"@, "ok"@, 0));
        };
        assert(text_lt("ok"@, "operation"@)) by {
            reveal_strlit("ok");
            reveal_strlit("operation");
            assert(lt_at("ok"@, "operation"@, 1));
        };
        assert(text_lt("operation"@, "requestId"@)) by {
            reveal_strlit("operation");
            reveal_strlit("requestId");
            assert(lt_at("operation"@, "requestId"@, 0));
        };
        assert(text_lt("requestId"@, "result"@)) by {
            reveal_strlit("requestId");
            reveal_strlit("result");
            assert(lt_at("requestId"@, "result"@, 2));
        };
        lemma_step_ascends(self.fields());
    }

    /// Reading what was written gives the same value back.
    pub proof fn lemma_round_trip(self)
        requires
            self.lossless(),
        ensures
            ResponseFrameView::of_json(self.json()) == Some(self),
            self.json().get("error"@) == (match self.error { Some(x) => Some(x.json()), None => None }),
            self.json().get("ok"@) == (Some(JsonView::Bool(self.ok))),
            self.json().get("operation"@) == (Some(JsonView::Text(self.operation))),
            self.json().get("requestId"@) == (Some(JsonView::Text(self.request_id))),
            self.json().get("result"@) == (self.result),
    {
        let f = self.fields();
        self.lemma_keys();
        assert(self.json().get("error"@) == match self.error { Some(x) => Some(x.json()), None => None }) by {
            lemma_lookup(f, 0);
        };
        assert(self.json().get("ok"@) == Some(JsonView::Bool(self.ok))) by {
            lemma_lookup(f, 1);
        };
        assert(self.json().get("operation"@) == Some(JsonView::Text(self.operation))) by {
            lemma_lookup(f, 2);
        };
        assert(self.json().get("requestId"@) == Some(JsonView::Text(self.request_id))) by {
            lemma_lookup(f, 3);
        };
        assert(self.json().get("result"@) == self.result) by {
            lemma_lookup(f, 4);
        };
        assert(ResponseFrameView::keys()[0] == "error"@);
        assert(ResponseFrameView::keys()[1] == "ok"@);
        assert(ResponseFrameView::keys()[2] == "operation"@);
        assert(ResponseFrameView::keys()[3] == "requestId"@);
        assert(ResponseFrameView::keys()[4] == "result"@);
        lemma_only_keys(f, ResponseFrameView::keys());
        if let Some(x) = self.error { x.lemma_round_trip(); }
    }

    /// Every embedded JSON value fits an object nested `n` levels deep.
    pub open spec fn embeds_sound(self, n: int) -> bool {
        &&& (self.result matches Some(x) ==> sound(x, n - 1))
    }

    /// The JSON object reads back from its text.
    pub proof fn lemma_sound(self, n: int)
        requires
            n >= 2,
            self.embeds_sound(n),
        ensures
            sound(self.json(), n),
    {
        self.lemma_keys();
        if let Some(x) = self.error { x.lemma_sound(n - 1); }
        lemma_sound_object(self.fields(), n);
    }
}

impl ResponseFrame {
    /// The JSON object for this value.
    pub fn to_json(&self) -> (r: Json)
        ensures
            r@ == self@.json(),
    {
        let mut b = ObjectBuilder::new();
        b.put_opt(
            "error",
            match &self.error {
                Some(x) => Some(x.to_json()),
                None => None,
            },
        );
        b.put("ok", Json::Bool(self.ok));
        b.put_text("operation", self.operation.as_str());
        b.put_text("requestId", self.request_id.as_str());
        b.put_opt("result", clone_opt_json(&self.result));
        assert(b.fields() == self@.fields());
        b.build()
    }

    /// Reads the value back from its JSON object, or from a list of its members in the
    /// order of declaration; unknown members are refused.
    pub fn from_json(v: &Json) -> (r: Option<ResponseFrame>)
        ensures
            match r {
                Some(x) => ResponseFrameView::of_json(v@) == Some(x@),
                None => ResponseFrameView::of_json(v@) is None,
            },
    {
        let names: [&str; 5] = ["requestId", "operation", "ok", "result", "error"];
        assert(key_views(names@) =~= ResponseFrameView::order());
        match listed_members(v, &names, 5) {
            Some(o) => ResponseFrame::from_object(&o),
            None => ResponseFrame::from_object(v),
        }
    }

    fn from_object(v: &Json) -> (r: Option<ResponseFrame>)
        ensures
            match r {
                Some(x) => ResponseFrameView::of_object(v@) == Some(x@),
                None => ResponseFrameView::of_object(v@) is None,
            },
    {
        let keys: [&str; 5] = ["error", "ok", "operation", "requestId", "result"];
        assert(key_views(keys@) =~= ResponseFrameView::keys());
        if !has_only_keys(v, &keys) {
            return None;
        }
        let request_id = match v.text_at("requestId") {
            Some(x) => x,
            None => return None,
        };
        let operation = match v.text_at("operation") {
            Some(x) => x,
            None => return None,
        };
        let ok = match read_bool(v, "ok") {
            Some(x) => x,
            None => return None,
        };
        let result = read_opt_json(v, "result");
        let error = match read_optional(v, "error") {
            Some(j) => match OperationError::from_json(j) {
                Some(x) => Some(x),
                None => return None,
            },
            None => None,
        };
        Some(ResponseFrame { request_id, operation, ok, result, error })
    }
}

impl ResponseFrameView {
    /// `ok` and payload agree: a success carries no error, a failure an error and
    /// no result.
    pub open spec fn valid(self) -> bool {
        if self.ok {
            self.error is None
        } else {
            self.error is Some && self.result is None
        }
    }
}

impl ResponseFrame {
    pub fn ok(request_id: &str, operation: &str, result: Json) -> (r: Self)
        ensures
            r@ == (ResponseFrameView {
                request_id: request_id@,
                operation: operation@,
                ok: true,
                result: Some(result@),
                error: None,
            }),
            r@.valid(),
    {
        ResponseFrame {
            request_id: request_id.to_owned(),
            operation: operation.to_owned(),
            ok: true,
            result: Some(result),
            error: None,
        }
    }

    pub fn err(request_id: &str, operation: &str, error: OperationError) -> (r: Self)
        ensures
            r@ == (ResponseFrameView {
                request_id: request_id@,
                operation: operation@,
                ok: false,
                result: None,
                error: Some(error@),
            }),
            r@.valid(),
    {
        ResponseFrame {
            request_id: request_id.to_owned(),
            operation: operation.to_owned(),
            ok: false,
            result: None,
            error: Some(error),
        }
    }

    /// Enforce that `ok` and payload agree.
    pub fn validate(&self) -> (r: Result<(), ProtocolError>)
        ensures
            self@.valid() ==> r is Ok,
            !self@.valid() ==> r == Err::<(), ProtocolError>(ProtocolError::InvalidFrame),
    {
        if self.ok {
            if self.error.is_some() {
                return Err(ProtocolError::InvalidFrame);
            }
        } else if self.error.is_none() || self.result.is_some() {
            return Err(ProtocolError::InvalidFrame);
        }
        Ok(())
    }
}

/// A fully decoded client-to-host frame.
#[derive(Debug, PartialEq)]
pub enum ClientFrame {
    Hello(HelloFrame),
    Request(RequestFrame),
}

/// A fully decoded host-to-client frame. Subscription, configuration and catalog
/// payloads are carried as they are.
#[derive(Debug, PartialEq)]
pub enum HostFrame {
    Accepted(AcceptedFrame),
    Incompatible(IncompatibleFrame),
    Draining(DrainingFrame),
    Response(ResponseFrame),
    Subscription(Json),
    ConfigChanged(Json),
    CatalogChanged(Json),
}

/// What a [`ClientFrame`] says.
pub enum ClientFrameView {
    Hello(HelloFrameView),
    Request(RequestFrameView),
}

/// What a [`HostFrame`] says.
pub enum HostFrameView {
    Accepted(AcceptedFrameView),
    Incompatible(IncompatibleFrameView),
    Draining(DrainingFrameView),
    Response(ResponseFrameView),
    Subscription(JsonView),
    ConfigChanged(JsonView),
    CatalogChanged(JsonView),
}

impl View for ClientFrame {
    type V = ClientFrameView;

    open spec fn view(&self) -> ClientFrameView {
        match *self {
            ClientFrame::Hello(f) => ClientFrameView::Hello(f@),
            ClientFrame::Request(f) => ClientFrameView::Request(f@),
        }
    }
}

impl View for HostFrame {
    type V = HostFrameView;

    open spec fn view(&self) -> HostFrameView {
        match *self {
            HostFrame::Accepted(f) => HostFrameView::Accepted(f@),
            HostFrame::Incompatible(f) => HostFrameView::Incompatible(f@),
            HostFrame::Draining(f) => HostFrameView::Draining(f@),
            HostFrame::Response(f) => HostFrameView::Response(f@),
            HostFrame::Subscription(v) => HostFrameView::Subscription(v@),
            HostFrame::ConfigChanged(v) => HostFrameView::ConfigChanged(v@),
            HostFrame::CatalogChanged(v) => HostFrameView::CatalogChanged(v@),
        }
    }
}

impl Clone for HostFrame {
    fn clone(&self) -> (r: Self)
        ensures
            r@ == self@,
    {
        match self {
            HostFrame::Accepted(f) => HostFrame::Accepted(f.clone()),
            HostFrame::Incompatible(f) => HostFrame::Incompatible(f.clone()),
            HostFrame::Draining(f) => HostFrame::Draining(f.clone()),
            HostFrame::Response(f) => HostFrame::Response(f.clone()),
            HostFrame::Subscription(v) => HostFrame::Subscription(v.clone()),
            HostFrame::ConfigChanged(v) => HostFrame::ConfigChanged(v.clone()),
            HostFrame::CatalogChanged(v) => HostFrame::CatalogChanged(v.clone()),
        }
    }
}

/// What is wrong with a value that is no frame: it has no place in the
/// vocabulary, or does not fit the schema of the frame it claims to be.
pub enum FrameFault {
    InvalidFrame,
    /// What the error says.
    InvalidJson(Seq<char>),
}

/// What is said of a value that does not fit the schema of the frame `name`.
pub open spec fn schema_fault(name: Seq<char>) -> FrameFault {
    FrameFault::InvalidJson("not a well-formed "@ + name + " frame"@)
}

/// The error says what the fault is.
pub open spec fn reports(e: ProtocolError, fault: FrameFault) -> bool {
    match fault {
        FrameFault::InvalidFrame => e is InvalidFrame,
        FrameFault::InvalidJson(message) => e matches ProtocolError::InvalidJson(m) && m@ == message,
    }
}

/// The client frame that `v` is.
pub open spec fn client_frame(v: JsonView) -> Result<ClientFrameView, FrameFault> {
    if !(v is Object) {
        Err(FrameFault::InvalidFrame)
    } else {
        match v.text_at("kind"@) {
            Some(kind) => if kind == "hello"@ {
                match HelloFrameView::of_json(v) {
                    Some(f) => Ok(ClientFrameView::Hello(f)),
                    None => Err(schema_fault("hello"@)),
                }
            } else {
                Err(FrameFault::InvalidFrame)
            },
            None => if v.get("requestId"@) is None {
                Err(FrameFault::InvalidFrame)
            } else {
                match RequestFrameView::of_json(v) {
                    Some(f) => Ok(ClientFrameView::Request(f)),
                    None => Err(schema_fault("request"@)),
                }
            },
        }
    }
}

/// The host frame that `v` is.
pub open spec fn host_frame(v: JsonView) -> Result<HostFrameView, FrameFault> {
    if !(v is Object) {
        Err(FrameFault::InvalidFrame)
    } else {
        match v.text_at("kind"@) {
            Some(kind) => if kind == "accepted"@ {
                match AcceptedFrameView::of_json(v) {
                    Some(f) => Ok(HostFrameView::Accepted(f)),
                    None => Err(schema_fault("accepted"@)),
                }
            } else if kind == "incompatible"@ {
                match IncompatibleFrameView::of_json(v) {
                    Some(f) => Ok(HostFrameView::Incompatible(f)),
                    None => Err(schema_fault("incompatible"@)),
                }
            } else if kind == "draining"@ {
                match DrainingFrameView::of_json(v) {
                    Some(f) => Ok(HostFrameView::Draining(f)),
                    None => Err(schema_fault("draining"@)),
                }
            } else if "subscription."@.is_prefix_of(kind) {
                Ok(HostFrameView::Subscription(v))
            } else if kind == "configuration.changed"@ {
                Ok(HostFrameView::ConfigChanged(v))
            } else if kind == "session.catalog.changed"@ {
                Ok(HostFrameView::CatalogChanged(v))
            } else {
                Err(FrameFault::InvalidFrame)
            },
            None => if v.get("requestId"@) is None {
                Err(FrameFault::InvalidFrame)
            } else {
                match ResponseFrameView::of_json(v) {
                    Some(f) => if f.valid() {
                        Ok(HostFrameView::Response(f))
                    } else {
                        Err(FrameFault::InvalidFrame)
                    },
                    None => Err(schema_fault("response"@)),
                }
            },
        }
    }
}

fn schema_error(frame: &str) -> (r: ProtocolError)
    ensures
        reports(r, schema_fault(frame@)),
{
    ProtocolError::InvalidJson(concat3("not a well-formed ", frame, " frame"))
}

/// Decode a client-to-host frame. Unknown client kinds are rejected as
/// `InvalidFrame`; a frame with no `kind` must be a request.
pub fn decode_client_frame(v: Json) -> (r: Result<ClientFrame, ProtocolError>)
    ensures
        match r {
            Ok(f) => client_frame(v@) == Ok::<ClientFrameView, FrameFault>(f@),
            Err(e) => client_frame(v@) matches Err(fault) && reports(e, fault),
        },
{
    match &v {
        Json::Object(_) => {},
        _ => return Err(ProtocolError::InvalidFrame),
    }
    match v.text_at("kind") {
        Some(kind) => if str_eq(kind.as_str(), "hello") {
            match HelloFrame::from_json(&v) {
                Some(f) => Ok(ClientFrame::Hello(f)),
                None => Err(schema_error("hello")),
            }
        } else {
            Err(ProtocolError::InvalidFrame)
        },
        None => if v.get("requestId").is_none() {
            Err(ProtocolError::InvalidFrame)
        } else {
            match RequestFrame::from_json(&v) {
                Some(f) => Ok(ClientFrame::Request(f)),
                None => Err(schema_error("request")),
            }
        },
    }
}

/// Decode a host-to-client frame, enforcing the response payload invariant.
pub fn decode_host_frame(v: Json) -> (r: Result<HostFrame, ProtocolError>)
    ensures
        match r {
            Ok(f) => host_frame(v@) == Ok::<HostFrameView, FrameFault>(f@),
            Err(e) => host_frame(v@) matches Err(fault) && reports(e, fault),
        },
{
    match &v {
        Json::Object(_) => {},
        _ => return Err(ProtocolError::InvalidFrame),
    }
    match v.text_at("kind") {
        Some(kind) => if str_eq(kind.as_str(), "accepted") {
            match AcceptedFrame::from_json(&v) {
                Some(f) => Ok(HostFrame::Accepted(f)),
                None => Err(schema_error("accepted")),
            }
        } else if str_eq(kind.as_str(), "incompatible") {
            match IncompatibleFrame::from_json(&v) {
                Some(f) => Ok(HostFrame::Incompatible(f)),
                None => Err(schema_error("incompatible")),
            }
        } else if str_eq(kind.as_str(), "draining") {
            match DrainingFrame::from_json(&v) {
                Some(f) => Ok(HostFrame::Draining(f)),
                None => Err(schema_error("draining")),
            }
        } else if starts_with(chars_of(kind.as_str()).as_slice(), "subscription.") {
            Ok(HostFrame::Subscription(v))
        } else if str_eq(kind.as_str(), "configuration.changed") {
            Ok(HostFrame::ConfigChanged(v))
        } else if str_eq(kind.as_str(), "session.catalog.changed") {
            Ok(HostFrame::CatalogChanged(v))
        } else {
            Err(ProtocolError::InvalidFrame)
        },
        None => if v.get("requestId").is_none() {
            Err(ProtocolError::InvalidFrame)
        } else {
            match ResponseFrame::from_json(&v) {
                Some(f) => match f.validate() {
                    Ok(_) => Ok(HostFrame::Response(f)),
                    Err(e) => Err(e),
                },
                None => Err(schema_error("response")),
            }
        },
    }
}

/// Request and response frames carry no `kind`.
proof fn lemma_no_kind(fields: Seq<Field>)
    requires
        forall|i: int|
            0 <= i < fields.len() ==> (#[trigger] fields[i]).0 == "requestId"@ || fields[i].0
                == "operation"@ || fields[i].0 == "input"@ || fields[i].0 == "ok"@ || fields[i].0
                == "result"@ || fields[i].0 == "error"@,
    ensures
        JsonView::Object(present(fields)).text_at("kind"@) is None,
{
    reveal_strlit("kind");
    reveal_strlit("requestId");
    reveal_strlit("operation");
    reveal_strlit("input");
    reveal_strlit("ok");
    reveal_strlit("result");
    reveal_strlit("error");
    assert("kind"@.len() == 4);
    assert("requestId"@.len() == 9);
    assert("operation"@.len() == 9);
    assert("input"@.len() == 5);
    assert("ok"@.len() == 2);
    assert("result"@.len() == 6);
    assert("error"@.len() == 5);
    lemma_absent(fields, "kind"@);
}

/// The host reads back every request that a client writes.
pub proof fn law_request_reads_back(f: RequestFrameView)
    ensures
        client_frame(f.json()) == Ok::<ClientFrameView, FrameFault>(ClientFrameView::Request(f)),
{
    f.lemma_round_trip();
    lemma_no_kind(f.fields());
}

/// The host reads back every opening frame that a client writes.
pub proof fn law_hello_reads_back(f: HelloFrameView)
    requires
        f.kind is Hello,
    ensures
        client_frame(f.json()) == Ok::<ClientFrameView, FrameFault>(ClientFrameView::Hello(f)),
{
    f.lemma_round_trip();
    assert(f.json().get("kind"@) == Some(HandshakeKind::Hello.json()));
}

/// A client reads back every well-formed response that the host writes, unless
/// its result is `null`, which reads as a success without a result.
pub proof fn law_response_reads_back(f: ResponseFrameView)
    requires
        f.valid(),
        f.result != Some(JsonView::Null),
    ensures
        host_frame(f.json()) == Ok::<HostFrameView, FrameFault>(HostFrameView::Response(f)),
{
    f.lemma_round_trip();
    lemma_no_kind(f.fields());
}

/// What makes a response well-formed: a success has no error, a failure has one and no
/// result.
pub proof fn law_responses_are_one_or_the_other(f: &ResponseFrame, r: Result<(), ProtocolError>)
    requires
        call_ensures(ResponseFrame::validate, (f,), r),
    ensures
        r is Ok <==> (f.ok ==> f.error is None) && (!f.ok ==> f.error is Some && f.result is None),
{
}

/// How frames are told apart: only an object is one; its kind says which, and one without
/// a kind is a request or a response if it has a request id. What a host pushes about
/// subscriptions, configuration and catalog is handed on as it is; any other kind is no
/// frame.
pub proof fn law_frames_are_told_apart(v: JsonView)
    ensures
        !(v is Object) ==> client_frame(v) == Err::<ClientFrameView, FrameFault>(
            FrameFault::InvalidFrame,
        ) && host_frame(v) == Err::<HostFrameView, FrameFault>(FrameFault::InvalidFrame),
        v is Object ==> match v.text_at("kind"@) {
            Some(kind) => {
                &&& client_frame(v) matches Ok(f) ==> kind == "hello"@ && f is Hello
                &&& kind != "hello"@ ==> client_frame(v) == Err::<ClientFrameView, FrameFault>(
                    FrameFault::InvalidFrame,
                )
                &&& host_frame(v) matches Ok(f) ==> {
                    &&& f is Accepted <==> kind == "accepted"@
                    &&& f is Incompatible <==> kind == "incompatible"@
                    &&& f is Draining <==> kind == "draining"@
                    &&& !(f is Response)
                    &&& f matches HostFrameView::Subscription(x) ==> x == v
                    &&& f matches HostFrameView::ConfigChanged(x) ==> x == v && kind
                        == "configuration.changed"@
                    &&& f matches HostFrameView::CatalogChanged(x) ==> x == v && kind
                        == "session.catalog.changed"@
                }
                &&& "subscription."@.is_prefix_of(kind) ==> host_frame(v) == Ok::<
                    HostFrameView,
                    FrameFault,
                >(HostFrameView::Subscription(v))
                &&& kind == "configuration.changed"@ ==> host_frame(v) == Ok::<
                    HostFrameView,
                    FrameFault,
                >(HostFrameView::ConfigChanged(v))
                &&& kind == "session.catalog.changed"@ ==> host_frame(v) == Ok::<
                    HostFrameView,
                    FrameFault,
                >(HostFrameView::CatalogChanged(v))
            },
            None => {
                &&& client_frame(v) matches Ok(f) ==> f is Request
                &&& host_frame(v) matches Ok(f) ==> f is Response
                &&& v.get("requestId"@) is None ==> client_frame(v) == Err::<
                    ClientFrameView,
                    FrameFault,
                >(FrameFault::InvalidFrame) && host_frame(v) == Err::<HostFrameView, FrameFault>(
                    FrameFault::InvalidFrame,
                )
            },
        },
{
    reveal_strlit("hello");
    reveal_strlit("accepted");
    reveal_strlit("incompatible");
    reveal_strlit("draining");
    reveal_strlit("subscription.");
    reveal_strlit("configuration.changed");
    reveal_strlit("session.catalog.changed");
    assert("accepted"@.len() == 8 && "incompatible"@.len() == 12 && "draining"@.len() == 8
        && "subscription."@.len() == 13 && "configuration.changed"@.len() == 21
        && "session.catalog.changed"@.len() == 23);
    assert("accepted"@[0] == 'a' && "draining"@[0] == 'd' && "subscription."@[0] == 's'
        && "subscription."@[1] == 'u' && "configuration.changed"@[0] == 'c'
        && "session.catalog.changed"@[1] == 'e');
    if v.text_at("kind"@) is Some {
        let kind = v.text_at("kind"@)->0;
        if "subscription."@.is_prefix_of(kind) {
            assert(kind.len() >= 13);
            assert(kind[0] == 's' && kind[1] == 'u') by {
                assert("subscription."@ == kind.subrange(0, 13));
                assert(kind.subrange(0, 13)[0] == kind[0]);
                assert(kind.subrange(0, 13)[1] == kind[1]);
            }
        }
    }
}

impl RequestFrameView {
    /// Only these members are known: an object with any other is refused.
    pub proof fn law_schema_is_closed(members: Seq<crate::json::Member>, i: int)
        requires
            RequestFrameView::of_json(JsonView::Object(members)) is Some,
            0 <= i < members.len(),
        ensures
            members[i].0 == "input"@
                || members[i].0 == "operation"@
                || members[i].0 == "requestId"@,
    {
        let keys = RequestFrameView::keys();
        let key = members[i].0;
        assert(keys.contains(key));
        let k = choose|k: int| 0 <= k < keys.len() && keys[k] == key;
        assert(keys.len() == 3);
    }
}

impl ResponseFrameView {
    /// Only these members are known: an object with any other is refused.
    pub proof fn law_schema_is_closed(members: Seq<crate::json::Member>, i: int)
        requires
            ResponseFrameView::of_json(JsonView::Object(members)) is Some,
            0 <= i < members.len(),
        ensures
            members[i].0 == "error"@
                || members[i].0 == "ok"@
                || members[i].0 == "operation"@
                || members[i].0 == "requestId"@
                || members[i].0 == "result"@,
    {
        let keys = ResponseFrameView::keys();
        let key = members[i].0;
        assert(keys.contains(key));
        let k = choose|k: int| 0 <= k < keys.len() && keys[k] == key;
        assert(keys.len() == 5);
    }
}

} // verus!
