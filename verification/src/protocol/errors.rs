//! Three-layer error model.
//!
//! - [`ProtocolError`]: framing or decoding faults; fatal, the connection is torn
//!   down.
//! - [`TransportError`]: local connection-state faults; never serialized.
//! - [`OpErrorCode`] and [`OperationError`]: operation-level failures carried
//!   inside an `ok:false` response. Each operation declares the closed subset it
//!   may return; the dispatcher rejects codes an operation did not declare.

use crate::json::Field;
use crate::json::Json;
use crate::json::JsonView;
use crate::json::ObjectBuilder;
use crate::json::present;
use crate::json::sound;
use crate::schema::has_only_keys;
use crate::schema::key_views;
use crate::schema::keys_ascend;
use crate::schema::lemma_lookup;
use crate::schema::lemma_only_keys;
use crate::schema::lemma_sound_object;
use crate::schema::lemma_step_ascends;
use crate::schema::member_at;
use crate::schema::only_keys;
use crate::text::chars_of;
use crate::text::concat;
use crate::text::cut;
use crate::text::lt_at;
use crate::text::str_eq;
use crate::text::string_of;
use crate::text::text_lt;
use crate::schema::listed_members;
use crate::schema::read_variant;
use crate::schema::struct_form;
use crate::schema::variant_name;
use vstd::prelude::*;

verus! {

/// Fatal framing or decoding fault. Any variant tears the connection down.
#[derive(Debug, PartialEq, Eq)]
pub enum ProtocolError {
    InvalidFrame,
    FrameTooLarge,
    InvalidUtf8,
    InvalidJson(String),
}

impl Clone for ProtocolError {
    fn clone(&self) -> (r: Self)
        ensures
            r == *self,
    {
        match self {
            ProtocolError::InvalidFrame => ProtocolError::InvalidFrame,
            ProtocolError::FrameTooLarge => ProtocolError::FrameTooLarge,
            ProtocolError::InvalidUtf8 => ProtocolError::InvalidUtf8,
            ProtocolError::InvalidJson(m) => ProtocolError::InvalidJson(m.clone()),
        }
    }
}

impl ProtocolError {
    /// The message of the fault.
    pub open spec fn text(self) -> Seq<char> {
        match self {
            ProtocolError::InvalidFrame => "invalid frame"@,
            ProtocolError::FrameTooLarge => "frame too large"@,
            ProtocolError::InvalidUtf8 => "invalid utf-8"@,
            ProtocolError::InvalidJson(m) => "invalid json: "@ + m@,
        }
    }

    /// The message of the fault.
    pub fn message(&self) -> (r: String)
        ensures
            r@ == self.text(),
    {
        match self {
            ProtocolError::InvalidFrame => "invalid frame".to_owned(),
            ProtocolError::FrameTooLarge => "frame too large".to_owned(),
            ProtocolError::InvalidUtf8 => "invalid utf-8".to_owned(),
            ProtocolError::InvalidJson(m) => concat("invalid json: ", m.as_str()),
        }
    }
}

/// `std::io::Error`, carried through from the transport.
#[verifier::external_type_specification]
#[verifier::external_body]
pub struct ExIoError(std::io::Error);

/// Local transport-state fault. Never serialized across the wire.
#[derive(Debug)]
pub enum TransportError {
    Closed,
    ReadEof,
    WriteZero,
    Io(std::io::Error),
}

/// Operation-level error code. Every operation must be able to return
/// [`OpErrorCode::InternalFailure`].
#[derive(Debug, Clone, Copy, PartialEq, Eq, Structural)]
pub enum OpErrorCode {
    HostNotReady,
    HostDraining,
    OperationUnavailable,
    NotFound,
    SessionArchived,
    SessionBusy,
    OperationConflict,
    CapabilityUnavailable,
    InvalidRequest,
    ProjectionIncomplete,
    PersistenceFailed,
    CommitOutcomeUnknown,
    AlreadyResolved,
    OutcomeUnknown,
    InternalFailure,
    RevisionConflict,
}

impl OpErrorCode {
    /// The name of the variant on the wire.
    pub open spec fn wire(self) -> Seq<char> {
        match self {
            OpErrorCode::HostNotReady => "host_not_ready"@,
            OpErrorCode::HostDraining => "host_draining"@,
            OpErrorCode::OperationUnavailable => "operation_unavailable"@,
            OpErrorCode::NotFound => "not_found"@,
            OpErrorCode::SessionArchived => "session_archived"@,
            OpErrorCode::SessionBusy => "session_busy"@,
            OpErrorCode::OperationConflict => "operation_conflict"@,
            OpErrorCode::CapabilityUnavailable => "capability_unavailable"@,
            OpErrorCode::InvalidRequest => "invalid_request"@,
            OpErrorCode::ProjectionIncomplete => "projection_incomplete"@,
            OpErrorCode::PersistenceFailed => "persistence_failed"@,
            OpErrorCode::CommitOutcomeUnknown => "commit_outcome_unknown"@,
            OpErrorCode::AlreadyResolved => "already_resolved"@,
            OpErrorCode::OutcomeUnknown => "outcome_unknown"@,
            OpErrorCode::InternalFailure => "internal_failure"@,
            OpErrorCode::RevisionConflict => "revision_conflict"@,
        }
    }

    /// The names on the wire: each variant is written, and read back, as its own.
    pub proof fn law_wire_names()
        ensures
            OpErrorCode::HostNotReady.wire() == "host_not_ready"@,
            OpErrorCode::of_wire("host_not_ready"@) == Some(OpErrorCode::HostNotReady),
            OpErrorCode::HostDraining.wire() == "host_draining"@,
            OpErrorCode::of_wire("host_draining"@) == Some(OpErrorCode::HostDraining),
            OpErrorCode::OperationUnavailable.wire() == "operation_unavailable"@,
            OpErrorCode::of_wire("operation_unavailable"@) == Some(OpErrorCode::OperationUnavailable),
            OpErrorCode::NotFound.wire() == "not_found"@,
            OpErrorCode::of_wire("not_found"@) == Some(OpErrorCode::NotFound),
            OpErrorCode::SessionArchived.wire() == "session_archived"@,
            OpErrorCode::of_wire("session_archived"@) == Some(OpErrorCode::SessionArchived),
            OpErrorCode::SessionBusy.wire() == "session_busy"@,
            OpErrorCode::of_wire("session_busy"@) == Some(OpErrorCode::SessionBusy),
            OpErrorCode::OperationConflict.wire() == "operation_conflict"@,
            OpErrorCode::of_wire("operation_conflict"@) == Some(OpErrorCode::OperationConflict),
            OpErrorCode::CapabilityUnavailable.wire() == "capability_unavailable"@,
            OpErrorCode::of_wire("capability_unavailable"@) == Some(OpErrorCode::CapabilityUnavailable),
            OpErrorCode::InvalidRequest.wire() == "invalid_request"@,
            OpErrorCode::of_wire("invalid_request"@) == Some(OpErrorCode::InvalidRequest),
            OpErrorCode::ProjectionIncomplete.wire() == "projection_incomplete"@,
            OpErrorCode::of_wire("projection_incomplete"@) == Some(OpErrorCode::ProjectionIncomplete),
            OpErrorCode::PersistenceFailed.wire() == "persistence_failed"@,
            OpErrorCode::of_wire("persistence_failed"@) == Some(OpErrorCode::PersistenceFailed),
            OpErrorCode::CommitOutcomeUnknown.wire() == "commit_outcome_unknown"@,
            OpErrorCode::of_wire("commit_outcome_unknown"@) == Some(OpErrorCode::CommitOutcomeUnknown),
            OpErrorCode::AlreadyResolved.wire() == "already_resolved"@,
            OpErrorCode::of_wire("already_resolved"@) == Some(OpErrorCode::AlreadyResolved),
            OpErrorCode::OutcomeUnknown.wire() == "outcome_unknown"@,
            OpErrorCode::of_wire("outcome_unknown"@) == Some(OpErrorCode::OutcomeUnknown),
            OpErrorCode::InternalFailure.wire() == "internal_failure"@,
            OpErrorCode::of_wire("internal_failure"@) == Some(OpErrorCode::InternalFailure),
            OpErrorCode::RevisionConflict.wire() == "revision_conflict"@,
            OpErrorCode::of_wire("revision_conflict"@) == Some(OpErrorCode::RevisionConflict),
    {
        OpErrorCode::HostNotReady.lemma_wire();
        OpErrorCode::HostDraining.lemma_wire();
        OpErrorCode::OperationUnavailable.lemma_wire();
        OpErrorCode::NotFound.lemma_wire();
        OpErrorCode::SessionArchived.lemma_wire();
        OpErrorCode::SessionBusy.lemma_wire();
        OpErrorCode::OperationConflict.lemma_wire();
        OpErrorCode::CapabilityUnavailable.lemma_wire();
        OpErrorCode::InvalidRequest.lemma_wire();
        OpErrorCode::ProjectionIncomplete.lemma_wire();
        OpErrorCode::PersistenceFailed.lemma_wire();
        OpErrorCode::CommitOutcomeUnknown.lemma_wire();
        OpErrorCode::AlreadyResolved.lemma_wire();
        OpErrorCode::OutcomeUnknown.lemma_wire();
        OpErrorCode::InternalFailure.lemma_wire();
        OpErrorCode::RevisionConflict.lemma_wire();
    }

    pub open spec fn json(self) -> JsonView {
        JsonView::Text(self.wire())
    }

    /// The variant that `s` names on the wire.
    pub open spec fn of_wire(s: Seq<char>) -> Option<OpErrorCode> {
        if s == "host_not_ready"@ {
            Some(OpErrorCode::HostNotReady)
        } else if s == "host_draining"@ {
            Some(OpErrorCode::HostDraining)
        } else if s == "operation_unavailable"@ {
            Some(OpErrorCode::OperationUnavailable)
        } else if s == "not_found"@ {
            Some(OpErrorCode::NotFound)
        } else if s == "session_archived"@ {
            Some(OpErrorCode::SessionArchived)
        } else if s == "session_busy"@ {
            Some(OpErrorCode::SessionBusy)
        } else if s == "operation_conflict"@ {
            Some(OpErrorCode::OperationConflict)
        } else if s == "capability_unavailable"@ {
            Some(OpErrorCode::CapabilityUnavailable)
        } else if s == "invalid_request"@ {
            Some(OpErrorCode::InvalidRequest)
        } else if s == "projection_incomplete"@ {
            Some(OpErrorCode::ProjectionIncomplete)
        } else if s == "persistence_failed"@ {
            Some(OpErrorCode::PersistenceFailed)
        } else if s == "commit_outcome_unknown"@ {
            Some(OpErrorCode::CommitOutcomeUnknown)
        } else if s == "already_resolved"@ {
            Some(OpErrorCode::AlreadyResolved)
        } else if s == "outcome_unknown"@ {
            Some(OpErrorCode::OutcomeUnknown)
        } else if s == "internal_failure"@ {
            Some(OpErrorCode::InternalFailure)
        } else if s == "revision_conflict"@ {
            Some(OpErrorCode::RevisionConflict)
        } else {
            None
        }
    }

    pub open spec fn of_json(v: JsonView) -> Option<OpErrorCode> {
        match variant_name(v) {
            Some(s) => OpErrorCode::of_wire(s),
            None => None,
        }
    }

    /// The name of the variant on the wire.
    pub fn as_str(self) -> (r: &'static str)
        ensures
            r@ == self.wire(),
    {
        match self {
            OpErrorCode::HostNotReady => "host_not_ready",
            OpErrorCode::HostDraining => "host_draining",
            OpErrorCode::OperationUnavailable => "operation_unavailable",
            OpErrorCode::NotFound => "not_found",
            OpErrorCode::SessionArchived => "session_archived",
            OpErrorCode::SessionBusy => "session_busy",
            OpErrorCode::OperationConflict => "operation_conflict",
            OpErrorCode::CapabilityUnavailable => "capability_unavailable",
            OpErrorCode::InvalidRequest => "invalid_request",
            OpErrorCode::ProjectionIncomplete => "projection_incomplete",
            OpErrorCode::PersistenceFailed => "persistence_failed",
            OpErrorCode::CommitOutcomeUnknown => "commit_outcome_unknown",
            OpErrorCode::AlreadyResolved => "already_resolved",
            OpErrorCode::OutcomeUnknown => "outcome_unknown",
            OpErrorCode::InternalFailure => "internal_failure",
            OpErrorCode::RevisionConflict => "revision_conflict",
        }
    }

    pub fn to_json(self) -> (r: Json)
        ensures
            r@ == self.json(),
    {
        Json::Text(self.as_str().to_owned())
    }

    /// The variant that `s` names on the wire.
    pub fn parse(s: &str) -> (r: Option<OpErrorCode>)
        ensures
            r == OpErrorCode::of_wire(s@),
    {
        if str_eq(s, "host_not_ready") {
            Some(OpErrorCode::HostNotReady)
        } else if str_eq(s, "host_draining") {
            Some(OpErrorCode::HostDraining)
        } else if str_eq(s, "operation_unavailable") {
            Some(OpErrorCode::OperationUnavailable)
        } else if str_eq(s, "not_found") {
            Some(OpErrorCode::NotFound)
        } else if str_eq(s, "session_archived") {
            Some(OpErrorCode::SessionArchived)
        } else if str_eq(s, "session_busy") {
            Some(OpErrorCode::SessionBusy)
        } else if str_eq(s, "operation_conflict") {
            Some(OpErrorCode::OperationConflict)
        } else if str_eq(s, "capability_unavailable") {
            Some(OpErrorCode::CapabilityUnavailable)
        } else if str_eq(s, "invalid_request") {
            Some(OpErrorCode::InvalidRequest)
        } else if str_eq(s, "projection_incomplete") {
            Some(OpErrorCode::ProjectionIncomplete)
        } else if str_eq(s, "persistence_failed") {
            Some(OpErrorCode::PersistenceFailed)
        } else if str_eq(s, "commit_outcome_unknown") {
            Some(OpErrorCode::CommitOutcomeUnknown)
        } else if str_eq(s, "already_resolved") {
            Some(OpErrorCode::AlreadyResolved)
        } else if str_eq(s, "outcome_unknown") {
            Some(OpErrorCode::OutcomeUnknown)
        } else if str_eq(s, "internal_failure") {
            Some(OpErrorCode::InternalFailure)
        } else if str_eq(s, "revision_conflict") {
            Some(OpErrorCode::RevisionConflict)
        } else {
            None
        }
    }

    pub fn from_json(v: &Json) -> (r: Option<OpErrorCode>)
        ensures
            r == OpErrorCode::of_json(v@),
    {
        match read_variant(v) {
            Some(s) => OpErrorCode::parse(s.as_str()),
            None => None,
        }
    }

    /// Every variant is read back from its wire name.
    pub proof fn lemma_wire(self)
        ensures
            OpErrorCode::of_wire(self.wire()) == Some(self),
            OpErrorCode::of_json(self.json()) == Some(self),
    {
        reveal_strlit("host_not_ready");
        reveal_strlit("host_draining");
        reveal_strlit("operation_unavailable");
        reveal_strlit("not_found");
        reveal_strlit("session_archived");
        reveal_strlit("session_busy");
        reveal_strlit("operation_conflict");
        reveal_strlit("capability_unavailable");
        reveal_strlit("invalid_request");
        reveal_strlit("projection_incomplete");
        reveal_strlit("persistence_failed");
        reveal_strlit("commit_outcome_unknown");
        reveal_strlit("already_resolved");
        reveal_strlit("outcome_unknown");
        reveal_strlit("internal_failure");
        reveal_strlit("revision_conflict");
        assert("host_not_ready"@.len() == 14);
        assert("host_draining"@.len() == 13);
        assert("operation_unavailable"@.len() == 21);
        assert("not_found"@.len() == 9);
        assert("session_archived"@.len() == 16);
        assert("session_busy"@.len() == 12);
        assert("operation_conflict"@.len() == 18);
        assert("capability_unavailable"@.len() == 22);
        assert("invalid_request"@.len() == 15);
        assert("projection_incomplete"@.len() == 21);
        assert("persistence_failed"@.len() == 18);
        assert("commit_outcome_unknown"@.len() == 22);
        assert("already_resolved"@.len() == 16);
        assert("outcome_unknown"@.len() == 15);
        assert("internal_failure"@.len() == 16);
        assert("revision_conflict"@.len() == 17);
        assert("operation_unavailable"@[0] != "projection_incomplete"@[0]);
        assert("operation_conflict"@[0] != "persistence_failed"@[0]);
        assert("capability_unavailable"@[1] != "commit_outcome_unknown"@[1]);
        assert("session_archived"@[0] != "already_resolved"@[0]);
        assert("invalid_request"@[0] != "outcome_unknown"@[0]);
        assert("session_archived"@[0] != "internal_failure"@[0]);
        assert("already_resolved"@[0] != "internal_failure"@[0]);
    }
}

/// Maximum characters in an operation error `message`.
pub const MAX_ERROR_MESSAGE_CHARS: usize = 1024;

/// Operation error payload carried in an `ok:false` response. `message` is capped
/// at [`MAX_ERROR_MESSAGE_CHARS`].
#[derive(Debug, PartialEq, Eq)]
pub struct OperationError {
    pub code: OpErrorCode,
    pub message: String,
}

/// What a [`OperationError`] says.
pub struct OperationErrorView {
    pub code: OpErrorCode,
    pub message: Seq<char>,
}

impl View for OperationError {
    type V = OperationErrorView;

    open spec fn view(&self) -> OperationErrorView {
        OperationErrorView {
            code: self.code,
            message: self.message@,
        }
    }
}

impl Clone for OperationError {
    fn clone(&self) -> (r: Self)
        ensures
            r@ == self@,
    {
        OperationError {
            code: self.code,
            message: self.message.clone(),
        }
    }
}

impl OperationErrorView {
    /// The members of the JSON object, in key order.
    pub open spec fn fields(self) -> Seq<Field> {
        Seq::empty()
            .push(("code"@, Some(self.code.json())))
            .push(("message"@, Some(JsonView::Text(self.message))))
    }

    pub open spec fn json(self) -> JsonView {
        JsonView::Object(present(self.fields()))
    }

    /// The only keys the object may have.
    pub open spec fn keys() -> Seq<Seq<char>> {
        seq!["code"@, "message"@]
    }

    /// The members in the order of declaration.
    pub open spec fn order() -> Seq<Seq<char>> {
        seq!["code"@, "message"@]
    }

    /// What the JSON value `v` says; `None` when it is neither such an object nor a list
    /// of its members.
    pub open spec fn of_json(v: JsonView) -> Option<OperationErrorView> {
        OperationErrorView::of_object(struct_form(v, OperationErrorView::order(), 2))
    }

    /// What the JSON object `v` says; `None` when it is no such object.
    pub open spec fn of_object(v: JsonView) -> Option<OperationErrorView> {
        let code = member_at(v, "code"@, |j: JsonView| OpErrorCode::of_json(j));
        let message = v.text_at("message"@);
        if only_keys(v, OperationErrorView::keys()) && code is Some && message is Some {
            Some(
                OperationErrorView {
                    code: code->0,
                    message: message->0,
                },
            )
        } else {
            None
        }
    }

    proof fn lemma_keys(self)
        ensures
            keys_ascend(self.fields()),
    {
        assert(text_lt("code"@, "message"@)) by {
            reveal_strlit("code");
            reveal_strlit("message");
            assert(lt_at("code"@, "message"@, 0));
        };
        lemma_step_ascends(self.fields());
    }

    /// Reading what was written gives the same value back.
    pub proof fn lemma_round_trip(self)
        ensures
            OperationErrorView::of_json(self.json()) == Some(self),
            self.json().get("code"@) == (Some(self.code.json())),
            self.json().get("message"@) == (Some(JsonView::Text(self.message))),
    {
        let f = self.fields();
        self.lemma_keys();
        assert(self.json().get("code"@) == Some(self.code.json())) by {
            lemma_lookup(f, 0);
        };
        assert(self.json().get("message"@) == Some(JsonView::Text(self.message))) by {
            lemma_lookup(f, 1);
        };
        assert(OperationErrorView::keys()[0] == "code"@);
        assert(OperationErrorView::keys()[1] == "message"@);
        lemma_only_keys(f, OperationErrorView::keys());
        self.code.lemma_wire();
    }

    /// The JSON object reads back from its text.
    pub proof fn lemma_sound(self, n: int)
        requires
            n >= 1,
        ensures
            sound(self.json(), n),
    {
        self.lemma_keys();
        lemma_sound_object(self.fields(), n);
    }
}

impl OperationError {
    /// The JSON object for this value.
    pub fn to_json(&self) -> (r: Json)
        ensures
            r@ == self@.json(),
    {
        let mut b = ObjectBuilder::new();
        b.put("code", self.code.to_json());
        b.put_text("message", self.message.as_str());
        assert(b.fields() == self@.fields());
        b.build()
    }

    /// Reads the value back from its JSON object, or from a list of its members in the
    /// order of declaration; unknown members are refused.
    pub fn from_json(v: &Json) -> (r: Option<OperationError>)
        ensures
            match r {
                Some(x) => OperationErrorView::of_json(v@) == Some(x@),
                None => OperationErrorView::of_json(v@) is None,
            },
    {
        let names: [&str; 2] = ["code", "message"];
        assert(key_views(names@) =~= OperationErrorView::order());
        match listed_members(v, &names, 2) {
            Some(o) => OperationError::from_object(&o),
            None => OperationError::from_object(v),
        }
    }

    fn from_object(v: &Json) -> (r: Option<OperationError>)
        ensures
            match r {
                Some(x) => OperationErrorView::of_object(v@) == Some(x@),
                None => OperationErrorView::of_object(v@) is None,
            },
    {
        let keys: [&str; 2] = ["code", "message"];
        assert(key_views(keys@) =~= OperationErrorView::keys());
        if !has_only_keys(v, &keys) {
            return None;
        }
        let code = match v.get("code") {
            Some(j) => match OpErrorCode::from_json(j) {
                Some(x) => x,
                None => return None,
            },
            None => return None,
        };
        let message = match v.text_at("message") {
            Some(x) => x,
            None => return None,
        };
        Some(OperationError { code, message })
    }
}

/// `message` cut off at the cap.
pub open spec fn capped(message: Seq<char>) -> Seq<char> {
    if message.len() > MAX_ERROR_MESSAGE_CHARS {
        message.take(MAX_ERROR_MESSAGE_CHARS as int)
    } else {
        message
    }
}

impl OperationError {
    pub fn new(code: OpErrorCode, message: &str) -> (r: Self)
        ensures
            r@ == (OperationErrorView { code, message: capped(message@) }),
    {
        let chars = chars_of(message);
        if chars.len() > MAX_ERROR_MESSAGE_CHARS {
            let end = cut(chars.as_slice(), 0, MAX_ERROR_MESSAGE_CHARS);
            assert(end@ =~= message@.take(MAX_ERROR_MESSAGE_CHARS as int));
            OperationError { code, message: string_of(end.as_slice()) }
        } else {
            OperationError { code, message: message.to_owned() }
        }
    }
}

/// A message that is too long is cut at 1024 characters, and no other is.
pub proof fn law_messages_are_capped(message: Seq<char>)
    ensures
        capped(message).is_prefix_of(message),
        capped(message).len() == (if message.len() > 1024 {
            1024
        } else {
            message.len()
        }),
{
}

impl OperationErrorView {
    /// Only these members are known: an object with any other is refused.
    pub proof fn law_schema_is_closed(members: Seq<crate::json::Member>, i: int)
        requires
            OperationErrorView::of_json(JsonView::Object(members)) is Some,
            0 <= i < members.len(),
        ensures
            members[i].0 == "code"@
                || members[i].0 == "message"@,
    {
        let keys = OperationErrorView::keys();
        let key = members[i].0;
        assert(keys.contains(key));
        let k = choose|k: int| 0 <= k < keys.len() && keys[k] == key;
        assert(keys.len() == 2);
    }
}

/// The messages of the framing faults.
pub proof fn law_faults_have_messages(e: &ProtocolError, r: String)
    requires
        call_ensures(ProtocolError::message, (e,), r),
    ensures
        e is InvalidFrame ==> r@ == "invalid frame"@,
        e is FrameTooLarge ==> r@ == "frame too large"@,
        e is InvalidUtf8 ==> r@ == "invalid utf-8"@,
        *e matches ProtocolError::InvalidJson(m) ==> r@ == "invalid json: "@ + m@,
{
}

} // verus!
