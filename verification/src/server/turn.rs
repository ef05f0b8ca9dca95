//! Turn coordination: durable admission, one turn per session at a time, stop and
//! resume decisions.
//!
//! A turn is admitted in steps, each taking in what the store answered: the
//! session must be idle, exist and not be archived; the admission chain must not
//! be poisoned; then the chain is extended and the turn runs until it is settled.
//! The session is held from the first step on, so two starts never overlap.

use crate::digest::hex;
use crate::digest::hex_lower;
use crate::digest::sha256;
use crate::digest::sha256_of;
use crate::ids::fresh_id;
use crate::ids::is_uuid_text;
use crate::json::Field;
use crate::json::Json;
use crate::json::JsonView;
use crate::json::ObjectBuilder;
use crate::json::Parsed;
use crate::json::json_text;
use crate::json::opt;
use crate::json::ordered_text;
use crate::json::present;
use crate::json::value_parsed;
use crate::runtime_event::RuntimeEvent;
use crate::runtime_event::RuntimeEventView;
use crate::server::records::ContinuationClaim;
use crate::server::records::ContinuationClaimView;
use crate::server::records::RootAdmissionRecord;
use crate::server::records::RootAdmissionRecordView;
use crate::server::records::SessionRecord;
use crate::text::concat;
use crate::text::concat3;
use crate::text::decimal;
use crate::text::decimal_text;
use crate::text::signed_decimal;
use crate::text::signed_decimal_text;
use crate::text::str_eq;
use crate::text_map::TextMap;
use crate::tool_ledger_scanner::event_views;
use vstd::string::StringExecFns;
use vstd::utf8::encode_utf8;
use vstd::prelude::*;

verus! {

#[derive(Debug, PartialEq, Eq)]
pub enum TurnError {
    SessionBusy,
    NotFound(String),
    SessionArchived(String),
    SessionPoisoned,
    Storage(String),
}

/// What a [`TurnError`] says.
pub enum TurnErrorView {
    SessionBusy,
    NotFound(Seq<char>),
    SessionArchived(Seq<char>),
    SessionPoisoned,
    Storage(Seq<char>),
}

impl View for TurnError {
    type V = TurnErrorView;

    open spec fn view(&self) -> TurnErrorView {
        match *self {
            TurnError::SessionBusy => TurnErrorView::SessionBusy,
            TurnError::NotFound(m) => TurnErrorView::NotFound(m@),
            TurnError::SessionArchived(m) => TurnErrorView::SessionArchived(m@),
            TurnError::SessionPoisoned => TurnErrorView::SessionPoisoned,
            TurnError::Storage(m) => TurnErrorView::Storage(m@),
        }
    }
}

impl TurnErrorView {
    /// The message of the error.
    pub open spec fn text(self) -> Seq<char> {
        match self {
            TurnErrorView::SessionBusy => "session busy: a turn is already running"@,
            TurnErrorView::NotFound(m) => "not found: "@ + m,
            TurnErrorView::SessionArchived(m) => "session archived: "@ + m,
            TurnErrorView::SessionPoisoned => "session poisoned: admission chain marked poisoned"@,
            TurnErrorView::Storage(m) => "storage: "@ + m,
        }
    }
}

impl TurnError {
    /// The message of the error.
    pub fn message(&self) -> (r: String)
        ensures
            r@ == self@.text(),
    {
        match self {
            TurnError::SessionBusy => "session busy: a turn is already running".to_owned(),
            TurnError::NotFound(m) => concat("not found: ", m.as_str()),
            TurnError::SessionArchived(m) => concat("session archived: ", m.as_str()),
            TurnError::SessionPoisoned => "session poisoned: admission chain marked poisoned".to_owned(),
            TurnError::Storage(m) => concat("storage: ", m.as_str()),
        }
    }
}

/// The `turn.start` result: the admitted turn identity.
#[derive(Debug, PartialEq)]
pub struct TurnStarted {
    pub session_id: String,
    pub turn_id: String,
    pub run_id: String,
    pub status: String,
}

/// What a [`TurnStarted`] says.
pub struct TurnStartedView {
    pub session_id: Seq<char>,
    pub turn_id: Seq<char>,
    pub run_id: Seq<char>,
    pub status: Seq<char>,
}

impl View for TurnStarted {
    type V = TurnStartedView;

    open spec fn view(&self) -> TurnStartedView {
        TurnStartedView {
            session_id: self.session_id@,
            turn_id: self.turn_id@,
            run_id: self.run_id@,
            status: self.status@,
        }
    }
}

impl Clone for TurnStarted {
    fn clone(&self) -> (r: Self)
        ensures
            r@ == self@,
    {
        TurnStarted {
            session_id: self.session_id.clone(),
            turn_id: self.turn_id.clone(),
            run_id: self.run_id.clone(),
            status: self.status.clone(),
        }
    }
}

impl TurnStartedView {
    /// The members of the JSON object, in key order.
    pub open spec fn fields(self) -> Seq<Field> {
        Seq::empty()
            .push(("runId"@, Some(JsonView::Text(self.run_id))))
            .push(("sessionId"@, Some(JsonView::Text(self.session_id))))
            .push(("status"@, Some(JsonView::Text(self.status))))
            .push(("turnId"@, Some(JsonView::Text(self.turn_id))))
    }

    pub open spec fn json(self) -> JsonView {
        JsonView::Object(present(self.fields()))
    }
}

impl TurnStarted {
    /// The JSON object for this value.
    pub fn to_json(&self) -> (r: Json)
        ensures
            r@ == self@.json(),
    {
        let mut b = ObjectBuilder::new();
        b.put_text("runId", self.run_id.as_str());
        b.put_text("sessionId", self.session_id.as_str());
        b.put_text("status", self.status.as_str());
        b.put_text("turnId", self.turn_id.as_str());
        assert(b.fields() == self@.fields());
        b.build()
    }
}

/// The `turn.stop` result.
#[derive(Debug, PartialEq)]
pub struct TurnStopped {
    pub session_id: String,
    pub status: String,
}

/// What a [`TurnStopped`] says.
pub struct TurnStoppedView {
    pub session_id: Seq<char>,
    pub status: Seq<char>,
}

impl View for TurnStopped {
    type V = TurnStoppedView;

    open spec fn view(&self) -> TurnStoppedView {
        TurnStoppedView {
            session_id: self.session_id@,
            status: self.status@,
        }
    }
}

impl Clone for TurnStopped {
    fn clone(&self) -> (r: Self)
        ensures
            r@ == self@,
    {
        TurnStopped {
            session_id: self.session_id.clone(),
            status: self.status.clone(),
        }
    }
}

impl TurnStoppedView {
    /// The members of the JSON object, in key order.
    pub open spec fn fields(self) -> Seq<Field> {
        Seq::empty()
            .push(("sessionId"@, Some(JsonView::Text(self.session_id))))
            .push(("status"@, Some(JsonView::Text(self.status))))
    }

    pub open spec fn json(self) -> JsonView {
        JsonView::Object(present(self.fields()))
    }
}

impl TurnStopped {
    /// The JSON object for this value.
    pub fn to_json(&self) -> (r: Json)
        ensures
            r@ == self@.json(),
    {
        let mut b = ObjectBuilder::new();
        b.put_text("sessionId", self.session_id.as_str());
        b.put_text("status", self.status.as_str());
        assert(b.fields() == self@.fields());
        b.build()
    }
}

/// `turn.resume.query` result: a continuation is possible, or why not.
#[derive(Debug, PartialEq)]
pub enum ResumePlan {
    Ready {
        source_run_id: String,
        source_turn_id: Option<String>,
        /// How many events of the source run are durably committed: the resume
        /// cursor the continuation replays after.
        source_runtime_event_high_water: i64,
    },
    Parked { reason: String },
}

/// `turn.resume.start` result: the continuation started, or parked.
#[derive(Debug, PartialEq)]
pub enum ResumeStart {
    Started {
        turn: TurnStarted,
        source_run_id: String,
        source_runtime_event_high_water: i64,
    },
    Parked { reason: String },
}

/// What a [`ResumePlan`] says.
pub enum ResumePlanView {
    Ready {
        source_run_id: Seq<char>,
        source_turn_id: Option<Seq<char>>,
        source_runtime_event_high_water: i64,
    },
    Parked { reason: Seq<char> },
}

/// What a [`ResumeStart`] says.
pub enum ResumeStartView {
    Started {
        turn: TurnStartedView,
        source_run_id: Seq<char>,
        source_runtime_event_high_water: i64,
    },
    Parked { reason: Seq<char> },
}

impl View for ResumePlan {
    type V = ResumePlanView;

    open spec fn view(&self) -> ResumePlanView {
        match *self {
            ResumePlan::Ready {
                source_run_id,
                source_turn_id,
                source_runtime_event_high_water,
            } => ResumePlanView::Ready {
                source_run_id: source_run_id@,
                source_turn_id: opt(source_turn_id),
                source_runtime_event_high_water,
            },
            ResumePlan::Parked { reason } => ResumePlanView::Parked { reason: reason@ },
        }
    }
}

impl View for ResumeStart {
    type V = ResumeStartView;

    open spec fn view(&self) -> ResumeStartView {
        match *self {
            ResumeStart::Started {
                turn,
                source_run_id,
                source_runtime_event_high_water,
            } => ResumeStartView::Started {
                turn: turn@,
                source_run_id: source_run_id@,
                source_runtime_event_high_water,
            },
            ResumeStart::Parked { reason } => ResumeStartView::Parked { reason: reason@ },
        }
    }
}

impl ResumePlanView {
    /// The JSON object of the plan.
    pub open spec fn json(self) -> JsonView {
        match self {
            ResumePlanView::Ready {
                source_run_id,
                source_turn_id,
                source_runtime_event_high_water,
            } => JsonView::Object(
                present(
                    Seq::empty()
                        .push(("disposition"@, Some(JsonView::Text("ready"@))))
                        .push(("sourceRunId"@, Some(JsonView::Text(source_run_id))))
                        .push(
                            (
                                "sourceRuntimeEventHighWater"@,
                                Some(JsonView::Number(source_runtime_event_high_water as int)),
                            ),
                        )
                        .push(
                            (
                                "sourceTurnId"@,
                                match source_turn_id {
                                    Some(id) => Some(JsonView::Text(id)),
                                    None => Some(JsonView::Null),
                                },
                            ),
                        ),
                ),
            ),
            ResumePlanView::Parked { reason } => JsonView::Object(
                present(
                    Seq::empty()
                        .push(("disposition"@, Some(JsonView::Text("parked"@))))
                        .push(("reason"@, Some(JsonView::Text(reason)))),
                ),
            ),
        }
    }
}

impl ResumePlan {
    /// The JSON object of the plan.
    pub fn to_json(&self) -> (r: Json)
        ensures
            r@ == self@.json(),
    {
        let mut b = ObjectBuilder::new();
        match self {
            ResumePlan::Ready {
                source_run_id,
                source_turn_id,
                source_runtime_event_high_water,
            } => {
                b.put_text("disposition", "ready");
                b.put_text("sourceRunId", source_run_id.as_str());
                b.put("sourceRuntimeEventHighWater", Json::Int(*source_runtime_event_high_water));
                b.put(
                    "sourceTurnId",
                    match source_turn_id {
                        Some(id) => Json::Text(id.clone()),
                        None => Json::Null,
                    },
                );
            },
            ResumePlan::Parked { reason } => {
                b.put_text("disposition", "parked");
                b.put_text("reason", reason.as_str());
            },
        }
        b.build()
    }
}

impl ResumeStartView {
    /// The JSON object of the result.
    pub open spec fn json(self) -> JsonView {
        match self {
            ResumeStartView::Started {
                turn,
                source_run_id,
                source_runtime_event_high_water,
            } => JsonView::Object(
                present(
                    Seq::empty()
                        .push(("kind"@, Some(JsonView::Text("started"@))))
                        .push(("runId"@, Some(JsonView::Text(turn.run_id))))
                        .push(("sessionId"@, Some(JsonView::Text(turn.session_id))))
                        .push(("sourceRunId"@, Some(JsonView::Text(source_run_id))))
                        .push(
                            (
                                "sourceRuntimeEventHighWater"@,
                                Some(JsonView::Number(source_runtime_event_high_water as int)),
                            ),
                        )
                        .push(("status"@, Some(JsonView::Text(turn.status))))
                        .push(("turnId"@, Some(JsonView::Text(turn.turn_id)))),
                ),
            ),
            ResumeStartView::Parked { reason } => JsonView::Object(
                present(
                    Seq::empty()
                        .push(("kind"@, Some(JsonView::Text("parked"@))))
                        .push(("reason"@, Some(JsonView::Text(reason)))),
                ),
            ),
        }
    }
}

impl ResumeStart {
    /// The JSON object of the result.
    pub fn to_json(&self) -> (r: Json)
        ensures
            r@ == self@.json(),
    {
        let mut b = ObjectBuilder::new();
        match self {
            ResumeStart::Started { turn, source_run_id, source_runtime_event_high_water } => {
                b.put_text("kind", "started");
                b.put_text("runId", turn.run_id.as_str());
                b.put_text("sessionId", turn.session_id.as_str());
                b.put_text("sourceRunId", source_run_id.as_str());
                b.put("sourceRuntimeEventHighWater", Json::Int(*source_runtime_event_high_water));
                b.put_text("status", turn.status.as_str());
                b.put_text("turnId", turn.turn_id.as_str());
            },
            ResumeStart::Parked { reason } => {
                b.put_text("kind", "parked");
                b.put_text("reason", reason.as_str());
            },
        }
        b.build()
    }
}

// ---------------------------------------------------------------------------
// Admission
// ---------------------------------------------------------------------------

/// Where the turn of a session stands.
#[derive(Debug, Clone, Copy, PartialEq, Eq, Structural)]
pub enum TurnPhase {
    /// Being admitted.
    Admitting,
    /// Admitted and running.
    Running,
}

/// The identity of the turn that follows `messages` messages.
pub open spec fn turn_id(messages: nat) -> Seq<char> {
    "turn-"@ + decimal(messages + 1)
}

pub open spec fn run_id(messages: nat) -> Seq<char> {
    "run-"@ + decimal(messages + 1)
}

pub open spec fn invocation_id(messages: nat) -> Seq<char> {
    "inv-"@ + decimal(messages + 1)
}

/// Turn, run and invocation of one turn. The identity is deterministic: it comes
/// from the number of messages before it.
#[derive(Debug, PartialEq)]
pub struct TurnIdentity {
    pub turn_id: String,
    pub run_id: String,
    pub invocation_id: String,
}

/// The identity of the turn that follows `messages` messages.
pub fn turn_identity(messages: usize) -> (r: TurnIdentity)
    requires
        messages < usize::MAX,
    ensures
        r.turn_id@ == turn_id(messages as nat),
        r.run_id@ == run_id(messages as nat),
        r.invocation_id@ == invocation_id(messages as nat),
{
    let n = decimal_text((messages + 1) as u64);
    TurnIdentity {
        turn_id: concat("turn-", n.as_str()),
        run_id: concat("run-", n.as_str()),
        invocation_id: concat("inv-", n.as_str()),
    }
}

/// What the admission records of the turn's identity and content.
pub open spec fn identity_json(messages: nat, content: Seq<char>) -> JsonView {
    JsonView::Object(
        present(
            Seq::empty()
                .push(("content"@, Some(JsonView::Text(content))))
                .push(("invocationId"@, Some(JsonView::Text(invocation_id(messages)))))
                .push(("runId"@, Some(JsonView::Text(run_id(messages)))))
                .push(("turnId"@, Some(JsonView::Text(turn_id(messages))))),
        ),
    )
}

/// The link that extends the admission chain from `tip`.
pub open spec fn admission(
    session_id: Seq<char>,
    messages: nat,
    content: Seq<char>,
    tip: Option<RootAdmissionRecordView>,
    now: i64,
) -> RootAdmissionRecordView {
    RootAdmissionRecordView {
        session_id,
        turn_id: turn_id(messages),
        run_id: run_id(messages),
        previous_root_turn_id: match tip {
            Some(t) => Some(t.turn_id),
            None => None,
        },
        identity_json: json_text(identity_json(messages, content)),
        admitted_at: now,
        poisoned: false,
    }
}

/// Why a session cannot take a turn, from what the catalog says of it.
pub open spec fn session_refusal(
    session_id: Seq<char>,
    found: Result<Option<SessionRecord>, String>,
) -> Option<TurnErrorView> {
    match found {
        Ok(Some(record)) => if record.is_archived {
            Some(TurnErrorView::SessionArchived(session_id))
        } else {
            None
        },
        Ok(None) => Some(
            TurnErrorView::NotFound(
                "session '"@ + session_id + "' does not exist (session.create it first)"@,
            ),
        ),
        Err(e) => Some(TurnErrorView::Storage(e@)),
    }
}

/// Why the admission chain cannot be extended.
pub open spec fn tip_refusal(tip: Result<Option<RootAdmissionRecord>, String>) -> Option<
    TurnErrorView,
> {
    match tip {
        Ok(Some(t)) => if t.poisoned {
            Some(TurnErrorView::SessionPoisoned)
        } else {
            None
        },
        Ok(None) => None,
        Err(e) => Some(TurnErrorView::Storage(e@)),
    }
}

fn check_session(session_id: &str, found: Result<Option<SessionRecord>, String>) -> (r: Result<
    (),
    TurnError,
>)
    ensures
        match r {
            Ok(_) => session_refusal(session_id@, found) is None,
            Err(e) => session_refusal(session_id@, found) == Some(e@),
        },
{
    match found {
        Ok(Some(record)) => if record.is_archived {
            Err(TurnError::SessionArchived(session_id.to_owned()))
        } else {
            Ok(())
        },
        Ok(None) => Err(
            TurnError::NotFound(
                concat3(
                    "session '",
                    session_id,
                    "' does not exist (session.create it first)",
                ),
            ),
        ),
        Err(e) => Err(TurnError::Storage(e)),
    }
}

/// The turns of all sessions that have one.
pub struct TurnCoordinator {
    active: TextMap<TurnPhase>,
}

impl TurnCoordinator {
    pub closed spec fn wf(&self) -> bool {
        self.active.wf()
    }

    /// The sessions that have a turn, and where it stands.
    pub closed spec fn turns(&self) -> Map<Seq<char>, TurnPhase> {
        self.active.map()
    }

    pub fn new() -> (r: Self)
        ensures
            r.wf(),
            r.turns() == Map::<Seq<char>, TurnPhase>::empty(),
    {
        TurnCoordinator { active: TextMap::new() }
    }

    /// Starts to admit a turn: the session must have none. It is held until the
    /// turn is settled or a later step refuses it.
    pub fn start_turn(&mut self, session_id: &str) -> (r: Result<(), TurnError>)
        requires
            old(self).wf(),
        ensures
            final(self).wf(),
            match r {
                Ok(_) => !old(self).turns().contains_key(session_id@) && final(self).turns() == old(self).turns().insert(session_id@, TurnPhase::Admitting),
                Err(e) => old(self).turns().contains_key(session_id@) && e@
                    == TurnErrorView::SessionBusy && final(self).turns() == old(self).turns(),
            },
    {
        if self.active.contains(session_id) {
            return Err(TurnError::SessionBusy);
        }
        self.active.insert(session_id, TurnPhase::Admitting);
        Ok(())
    }

    /// The session must exist in the catalog and not be archived.
    pub fn session_found(
        &mut self,
        session_id: &str,
        found: Result<Option<SessionRecord>, String>,
    ) -> (r: Result<(), TurnError>)
        requires
            old(self).wf(),
        ensures
            final(self).wf(),
            match r {
                Ok(_) => session_refusal(session_id@, found) is None && final(self).turns() == old(self).turns(),
                Err(e) => session_refusal(session_id@, found) == Some(e@) && final(self).turns()
                    == old(self).turns().remove(session_id@),
            },
    {
        match check_session(session_id, found) {
            Ok(_) => Ok(()),
            Err(e) => {
                self.active.remove(session_id);
                Err(e)
            },
        }
    }

    /// The link to extend the admission chain with, from the tip that was read.
    pub fn tip_read(
        &mut self,
        session_id: &str,
        messages: usize,
        content: &str,
        tip: Result<Option<RootAdmissionRecord>, String>,
        now: i64,
    ) -> (r: Result<RootAdmissionRecord, TurnError>)
        requires
            old(self).wf(),
            messages < usize::MAX,
        ensures
            final(self).wf(),
            match r {
                Ok(record) => tip matches Ok(t) && tip_refusal(tip) is None && record@ == admission(
                    session_id@,
                    messages as nat,
                    content@,
                    opt(t),
                    now,
                ) && final(self).turns() == old(self).turns(),
                Err(e) => tip_refusal(tip) == Some(e@) && final(self).turns() == old(self).turns().remove(session_id@),
            },
    {
        let previous = match tip {
            Ok(Some(t)) => {
                if t.poisoned {
                    self.active.remove(session_id);
                    return Err(TurnError::SessionPoisoned);
                }
                Some(t.turn_id)
            },
            Ok(None) => None,
            Err(e) => {
                self.active.remove(session_id);
                return Err(TurnError::Storage(e));
            },
        };
        let identity = turn_identity(messages);
        let mut b = ObjectBuilder::new();
        b.put_text("content", content);
        b.put_text("invocationId", identity.invocation_id.as_str());
        b.put_text("runId", identity.run_id.as_str());
        b.put_text("turnId", identity.turn_id.as_str());
        let identity_value = b.build();
        Ok(
            RootAdmissionRecord {
                session_id: session_id.to_owned(),
                turn_id: identity.turn_id,
                run_id: identity.run_id,
                previous_root_turn_id: previous,
                identity_json: identity_value.to_text(),
                admitted_at: now,
                poisoned: false,
            },
        )
    }

    /// The chain was extended with `record`, or could not be: the turn runs, or is
    /// given up.
    pub fn admitted(&mut self, record: &RootAdmissionRecord, extended: Result<(), String>) -> (r:
        Result<TurnStarted, TurnError>)
        requires
            old(self).wf(),
        ensures
            final(self).wf(),
            match r {
                Ok(started) => extended is Ok && started@ == started_turn(record@) && final(self).turns() == old(self).turns().insert(record.session_id@, TurnPhase::Running),
                Err(e) => extended matches Err(m) && e@ == TurnErrorView::Storage(m@) && final(self).turns() == old(self).turns().remove(record.session_id@),
            },
    {
        match extended {
            Ok(_) => {
                self.active.insert(record.session_id.as_str(), TurnPhase::Running);
                Ok(
                    TurnStarted {
                        session_id: record.session_id.clone(),
                        turn_id: record.turn_id.clone(),
                        run_id: record.run_id.clone(),
                        status: "running".to_owned(),
                    },
                )
            },
            Err(m) => {
                self.active.remove(record.session_id.as_str());
                Err(TurnError::Storage(m))
            },
        }
    }

    /// The run has drained and its terminal event is durable: the session is
    /// released.
    pub fn settled(&mut self, session_id: &str)
        requires
            old(self).wf(),
        ensures
            final(self).wf(),
            final(self).turns() == old(self).turns().remove(session_id@),
    {
        self.active.remove(session_id);
    }

    /// Whether the active turn of a session can be stopped. The run then ends with
    /// an abort terminal, and the session is released once it has drained.
    pub fn stop_turn(&self, session_id: &str) -> (r: Result<TurnStopped, TurnError>)
        requires
            self.wf(),
        ensures
            match r {
                Ok(stopped) => running(self.turns(), session_id@) && stopped@ == (TurnStoppedView {
                    session_id: session_id@,
                    status: "request_stop"@,
                }),
                Err(e) => !running(self.turns(), session_id@) && e@ == TurnErrorView::NotFound(
                    "no active turn for session '"@ + session_id@ + "'"@,
                ),
            },
    {
        match self.active.get(session_id) {
            Some(TurnPhase::Running) => Ok(
                TurnStopped {
                    session_id: session_id.to_owned(),
                    status: "request_stop".to_owned(),
                },
            ),
            _ => Err(
                TurnError::NotFound(concat3("no active turn for session '", session_id, "'")),
            ),
        }
    }
}

/// The session has a running turn.
pub open spec fn running(turns: Map<Seq<char>, TurnPhase>, session_id: Seq<char>) -> bool {
    turns.contains_key(session_id) && turns[session_id] == TurnPhase::Running
}

/// The identity of the turn that an admission starts.
pub open spec fn started_turn(record: RootAdmissionRecordView) -> TurnStartedView {
    TurnStartedView {
        session_id: record.session_id,
        turn_id: record.turn_id,
        run_id: record.run_id,
        status: "running"@,
    }
}

/// Turns after different numbers of messages have different identities.
pub proof fn law_turn_identities_differ(m: nat, n: nat)
    requires
        turn_id(m) == turn_id(n) || run_id(m) == run_id(n) || invocation_id(m) == invocation_id(n),
    ensures
        m == n,
{
    let a = decimal(m + 1);
    let b = decimal(n + 1);
    reveal_strlit("turn-");
    reveal_strlit("run-");
    reveal_strlit("inv-");
    if turn_id(m) == turn_id(n) {
        assert(turn_id(m).skip(5) =~= a);
        assert(turn_id(n).skip(5) =~= b);
    } else if run_id(m) == run_id(n) {
        assert(run_id(m).skip(4) =~= a);
        assert(run_id(n).skip(4) =~= b);
    } else {
        assert(invocation_id(m).skip(4) =~= a);
        assert(invocation_id(n).skip(4) =~= b);
    }
    let max = if m > n {
        m + 1
    } else {
        n + 1
    };
    crate::text::law_decimal_reads_back(m + 1, max);
    crate::text::law_decimal_reads_back(n + 1, max);
}

/// Each link of an admission chain names the turn that it follows, the first link
/// of a session names none, and no new link is poisoned.
pub proof fn law_admission_extends_the_tip(
    session_id: Seq<char>,
    messages: nat,
    content: Seq<char>,
    tip: Option<RootAdmissionRecordView>,
    now: i64,
)
    ensures
        admission(session_id, messages, content, tip, now).previous_root_turn_id == (match tip {
            Some(t) => Some(t.turn_id),
            None => None,
        }),
        !admission(session_id, messages, content, tip, now).poisoned,
{
}

// ---------------------------------------------------------------------------
// Resume
// ---------------------------------------------------------------------------

/// What the admission tip alone says about resuming: why not, or nothing yet.
pub open spec fn tip_parks(tip: Option<RootAdmissionRecordView>) -> Option<Seq<char>> {
    match tip {
        None => Some("resume_candidate_missing"@),
        Some(t) => if t.poisoned {
            Some("safety_check_failed"@)
        } else {
            None
        },
    }
}

/// The plan for a readable tip whose run has `high_water` durable events.
pub open spec fn plan_for(tip: RootAdmissionRecordView, high_water: i64) -> ResumePlanView {
    if high_water == 0 {
        ResumePlanView::Parked { reason: "source_run_unreadable"@ }
    } else {
        ResumePlanView::Ready {
            source_run_id: tip.run_id,
            source_turn_id: Some(tip.turn_id),
            source_runtime_event_high_water: high_water,
        }
    }
}

/// Whether the session has a run that may be resumed: the tip whose high-water
/// mark is to be read next, or the plan that parks.
pub fn resume_candidate(tip: Result<Option<RootAdmissionRecord>, String>) -> (r: Result<
    Result<RootAdmissionRecord, ResumePlan>,
    TurnError,
>)
    ensures
        match r {
            Ok(Ok(t)) => tip == Ok::<Option<RootAdmissionRecord>, String>(Some(t)) && tip_parks(
                Some(t@),
            ) is None,
            Ok(Err(plan)) => tip matches Ok(t) && tip_parks(opt(t)) matches Some(reason) && plan@
                == (ResumePlanView::Parked { reason }),
            Err(e) => tip matches Err(m) && e@ == TurnErrorView::Storage(m@),
        },
{
    match tip {
        Err(m) => Err(TurnError::Storage(m)),
        Ok(None) => Ok(Err(ResumePlan::Parked { reason: "resume_candidate_missing".to_owned() })),
        Ok(Some(t)) => if t.poisoned {
            Ok(Err(ResumePlan::Parked { reason: "safety_check_failed".to_owned() }))
        } else {
            Ok(Ok(t))
        },
    }
}

/// Whether a continuation of the tip's run is possible, keyed on the durable
/// high-water mark.
pub fn resume_query(tip: &RootAdmissionRecord, high_water: Result<i64, String>) -> (r: Result<
    ResumePlan,
    TurnError,
>)
    ensures
        match r {
            Ok(plan) => high_water matches Ok(n) && plan@ == plan_for(tip@, n),
            Err(e) => high_water matches Err(m) && e@ == TurnErrorView::Storage(m@),
        },
{
    match high_water {
        Err(m) => Err(TurnError::Storage(m)),
        Ok(n) => if n == 0 {
            Ok(ResumePlan::Parked { reason: "source_run_unreadable".to_owned() })
        } else {
            Ok(
                ResumePlan::Ready {
                    source_run_id: tip.run_id.clone(),
                    source_turn_id: Some(tip.turn_id.clone()),
                    source_runtime_event_high_water: n,
                },
            )
        },
    }
}

/// The caller's cursor still is the high-water mark of the plan: nothing, or why
/// the continuation parks.
pub open spec fn drift(plan: ResumePlanView, source_high_water: i64) -> Option<Seq<char>> {
    match plan {
        ResumePlanView::Parked { reason } => Some(reason),
        ResumePlanView::Ready { source_runtime_event_high_water, .. } => if
            source_runtime_event_high_water != source_high_water {
            Some("source_run_changed"@)
        } else {
            None
        },
    }
}

/// Checks the caller's cursor against the plan: why the continuation parks, if it
/// does.
pub fn check_drift(plan: &ResumePlan, source_high_water: i64) -> (r: Option<ResumeStart>)
    ensures
        match r {
            Some(start) => drift(plan@, source_high_water) matches Some(reason) && start@ == (
            ResumeStartView::Parked { reason }),
            None => drift(plan@, source_high_water) is None,
        },
{
    match plan {
        ResumePlan::Parked { reason } => Some(ResumeStart::Parked { reason: reason.clone() }),
        ResumePlan::Ready { source_runtime_event_high_water, .. } => if
            *source_runtime_event_high_water != source_high_water {
            Some(ResumeStart::Parked { reason: "source_run_changed".to_owned() })
        } else {
            None
        },
    }
}

/// A member of an admission's recorded identity; empty when the record is not
/// readable or does not have it.
pub open spec fn identity_member(identity: Parsed, key: Seq<char>) -> Seq<char> {
    match identity {
        Ok(v) => match v.text_at(key) {
            Some(s) => s,
            None => Seq::empty(),
        },
        Err(_) => Seq::empty(),
    }
}

/// The content and invocation of a recorded admission.
#[derive(Debug, PartialEq)]
pub struct SourceIdentity {
    pub content: String,
    pub invocation_id: String,
}

/// The content and invocation that an admission's identity names.
pub fn identity_of(identity: &Result<Json, String>) -> (r: SourceIdentity)
    ensures
        match *identity {
            Ok(v) => r.content@ == identity_member(Parsed::Ok(v@), "content"@) && r.invocation_id@
                == identity_member(Parsed::Ok(v@), "invocationId"@),
            Err(e) => r.content@ == Seq::<char>::empty() && r.invocation_id@ == Seq::<
                char,
            >::empty(),
        },
{
    let empty = String::new();
    assert(empty@ =~= Seq::<char>::empty());
    match identity {
        Ok(v) => SourceIdentity {
            content: match v.text_at("content") {
                Some(s) => s,
                None => empty.clone(),
            },
            invocation_id: match v.text_at("invocationId") {
                Some(s) => s,
                None => empty,
            },
        },
        Err(_) => SourceIdentity { content: empty.clone(), invocation_id: empty },
    }
}

/// The content and invocation of the admission to continue, read again before it
/// is.
pub fn source_identity(tip: Result<Option<RootAdmissionRecord>, String>) -> (r: Result<
    SourceIdentity,
    TurnError,
>)
    ensures
        match r {
            Ok(source) => tip matches Ok(Some(t)) && source.content@ == identity_member(
                value_parsed(t.identity_json@),
                "content"@,
            ) && source.invocation_id@ == identity_member(
                value_parsed(t.identity_json@),
                "invocationId"@,
            ),
            Err(e) => match tip {
                Ok(None) => e@ == TurnErrorView::NotFound("admission tip vanished"@),
                Ok(Some(_)) => false,
                Err(m) => e@ == TurnErrorView::Storage(m@),
            },
        },
{
    match tip {
        Err(m) => Err(TurnError::Storage(m)),
        Ok(None) => Err(TurnError::NotFound("admission tip vanished".to_owned())),
        Ok(Some(t)) => Ok(identity_of(&Json::parse(t.identity_json.as_str()))),
    }
}

/// The texts of the events of one run, end to end.
pub open spec fn run_prefix(events: Seq<RuntimeEventView>, run_id: Seq<char>) -> Seq<char>
    decreases events.len(),
{
    if events.len() == 0 {
        Seq::empty()
    } else {
        let before = run_prefix(events.drop_last(), run_id);
        if events.last().run_id == run_id {
            before + ordered_text(events.last().declared_json())
        } else {
            before
        }
    }
}

/// The texts of the events of one run, end to end.
pub fn source_prefix(events: &Vec<RuntimeEvent>, run_id: &str) -> (r: String)
    ensures
        r@ == run_prefix(event_views(events@), run_id@),
{
    let ghost all = event_views(events@);
    let mut out = String::new();
    let mut i: usize = 0;
    assert(run_prefix(all.take(0), run_id@) =~= Seq::empty());
    while i < events.len()
        invariant
            i <= events.len(),
            all == event_views(events@),
            out@ == run_prefix(all.take(i as int), run_id@),
        decreases events.len() - i,
    {
        assert(all.take(i + 1).drop_last() =~= all.take(i as int));
        assert(all.take(i + 1).last() == all[i as int]);
        if str_eq(events[i].run_id.as_str(), run_id) {
            out.append(events[i].to_declared_json().to_ordered_text().as_str());
        }
        i = i + 1;
    }
    assert(all.take(i as int) =~= all);
    out
}

/// The hexadecimal SHA-256 digest of a text.
pub open spec fn text_digest(text: Seq<char>) -> Seq<char> {
    hex(sha256(encode_utf8(text)))
}

fn digest_of(text: &str) -> (r: String)
    ensures
        r@ == text_digest(text@),
{
    hex_lower(sha256_of(text.as_bytes()).as_slice())
}

/// What a continuation claim is made from.
pub struct ClaimSource {
    pub session_id: Seq<char>,
    pub invocation_id: Seq<char>,
    pub run_id: Seq<char>,
    pub turn_id: Seq<char>,
    pub high_water: i64,
    /// The texts of the source run's events.
    pub prefix: Seq<char>,
}

/// The boundary that a claim continues from.
pub open spec fn boundary_json(source: ClaimSource, messages: nat) -> JsonView {
    JsonView::Object(
        present(
            Seq::empty()
                .push(("sourceHighWater"@, Some(JsonView::Number(source.high_water as int))))
                .push(("sourceRunId"@, Some(JsonView::Text(source.run_id))))
                .push(("targetTurnId"@, Some(JsonView::Text(turn_id(messages))))),
        ),
    )
}

/// The header of the run that a claim starts.
pub open spec fn run_header_json(messages: nat) -> JsonView {
    JsonView::Object(
        present(
            Seq::empty()
                .push(("runId"@, Some(JsonView::Text(run_id(messages)))))
                .push(("turnId"@, Some(JsonView::Text(turn_id(messages))))),
        ),
    )
}

/// The text whose digest authenticates a claim's boundary.
pub open spec fn boundary_text(source: ClaimSource, messages: nat) -> Seq<char> {
    text_digest(source.prefix) + ":"@ + turn_id(messages) + ":"@ + run_id(messages) + ":"@
        + signed_decimal(source.high_water as int)
}

/// The claim that the turn after `messages` messages continues `source`.
pub open spec fn claim(source: ClaimSource, messages: nat, claim_id: Seq<char>, now: i64) ->
    ContinuationClaimView {
    ContinuationClaimView {
        claim_id,
        source_session_id: source.session_id,
        source_invocation_id: source.invocation_id,
        source_run_id: source.run_id,
        source_turn_id: source.turn_id,
        source_event_high_water: source.high_water,
        source_prefix_digest: text_digest(source.prefix),
        boundary_digest: text_digest(boundary_text(source, messages)),
        boundary_json: json_text(boundary_json(source, messages)),
        provider_projection_version: 1,
        provider_replay_digest: text_digest(source.prefix),
        target_session_id: source.session_id,
        target_invocation_id: invocation_id(messages),
        target_run_id: run_id(messages),
        target_turn_id: turn_id(messages),
        target_run_header_json: json_text(run_header_json(messages)),
        claimed_at: now,
        start_event_id: None,
        start_kind: None,
        protocol_version: 1,
    }
}

/// The claim that a turn continues a run from its durable boundary. `claim_id` is
/// a fresh id.
pub fn continuation_claim(
    session_id: &str,
    source_run_id: &str,
    source_turn_id: &str,
    source: &SourceIdentity,
    source_high_water: i64,
    events: &Vec<RuntimeEvent>,
    messages: usize,
    claim_id: &str,
    now: i64,
) -> (r: ContinuationClaim)
    requires
        messages < usize::MAX,
    ensures
        r@ == claim(
            ClaimSource {
                session_id: session_id@,
                invocation_id: source.invocation_id@,
                run_id: source_run_id@,
                turn_id: source_turn_id@,
                high_water: source_high_water,
                prefix: run_prefix(event_views(events@), source_run_id@),
            },
            messages as nat,
            claim_id@,
            now,
        ),
{
    let target = turn_identity(messages);
    let prefix_digest = digest_of(source_prefix(events, source_run_id).as_str());
    let mut boundary = concat3(prefix_digest.as_str(), ":", target.turn_id.as_str());
    boundary.append(":");
    boundary.append(target.run_id.as_str());
    boundary.append(":");
    boundary.append(signed_decimal_text(source_high_water).as_str());
    let mut b = ObjectBuilder::new();
    b.put("sourceHighWater", Json::Int(source_high_water));
    b.put_text("sourceRunId", source_run_id);
    b.put_text("targetTurnId", target.turn_id.as_str());
    let boundary_value = b.build();
    let mut h = ObjectBuilder::new();
    h.put_text("runId", target.run_id.as_str());
    h.put_text("turnId", target.turn_id.as_str());
    let header_value = h.build();
    ContinuationClaim {
        claim_id: claim_id.to_owned(),
        source_session_id: session_id.to_owned(),
        source_invocation_id: source.invocation_id.clone(),
        source_run_id: source_run_id.to_owned(),
        source_turn_id: source_turn_id.to_owned(),
        source_event_high_water: source_high_water,
        source_prefix_digest: prefix_digest.clone(),
        boundary_digest: digest_of(boundary.as_str()),
        boundary_json: boundary_value.to_text(),
        provider_projection_version: 1,
        provider_replay_digest: prefix_digest,
        target_session_id: session_id.to_owned(),
        target_invocation_id: target.invocation_id,
        target_run_id: target.run_id,
        target_turn_id: target.turn_id,
        target_run_header_json: header_value.to_text(),
        claimed_at: now,
        start_event_id: None,
        start_kind: None,
        protocol_version: 1,
    }
}

/// What `turn.resume.start` gives once the continuation turn was started, or was
/// not: a busy session parks it.
pub fn resume_start(
    begun: Result<TurnStarted, TurnError>,
    source_run_id: &str,
    source_high_water: i64,
) -> (r: Result<ResumeStart, TurnError>)
    ensures
        match begun {
            Ok(turn) => r matches Ok(start) && start@ == (ResumeStartView::Started {
                turn: turn@,
                source_run_id: source_run_id@,
                source_runtime_event_high_water: source_high_water,
            }),
            Err(TurnError::SessionBusy) => r matches Ok(start) && start@ == (
            ResumeStartView::Parked { reason: "session_busy"@ }),
            Err(e) => r matches Err(f) && f == e,
        },
{
    match begun {
        Ok(turn) => Ok(
            ResumeStart::Started {
                turn,
                source_run_id: source_run_id.to_owned(),
                source_runtime_event_high_water: source_high_water,
            },
        ),
        Err(TurnError::SessionBusy) => Ok(
            ResumeStart::Parked { reason: "session_busy".to_owned() },
        ),
        Err(e) => Err(e),
    }
}

/// A plan never drifts from its own high-water mark, and always from another.
pub proof fn law_resume_needs_the_current_mark(tip: RootAdmissionRecordView, high_water: i64, cursor:
    i64)
    requires
        high_water != 0,
    ensures
        drift(plan_for(tip, high_water), cursor) is None <==> cursor == high_water,
        cursor != high_water ==> drift(plan_for(tip, high_water), cursor) == Some(
            "source_run_changed"@,
        ),
{
}

// ---------------------------------------------------------------------------
// The steps of an admission
// ---------------------------------------------------------------------------

/// A turn that is being admitted.
#[derive(Debug)]
pub struct Admission {
    session_id: String,
    content: String,
    record: Option<RootAdmissionRecord>,
    session_checked: bool,
}

/// What an admission asks of the store.
#[derive(Debug)]
pub enum AdmissionAction {
    /// Look the session up in the catalog.
    FindSession,
    /// Read the tip of the session's admission chain.
    ReadTip,
    /// Extend the chain with this link.
    Extend(RootAdmissionRecord),
}

/// What the store answers.
#[derive(Debug)]
pub enum AdmissionReply {
    Session(Result<Option<SessionRecord>, String>),
    /// The tip, the number of messages of the session, and the time.
    Tip { tip: Result<Option<RootAdmissionRecord>, String>, messages: usize, now: i64 },
    Extended(Result<(), String>),
}

/// What an answer leads to.
#[derive(Debug)]
pub enum AdmissionStep {
    /// The admission goes on.
    Next(Admission),
    /// The turn runs, or was refused.
    Done(Result<TurnStarted, TurnError>),
}

/// What an [`Admission`] knows.
pub struct AdmissionView {
    pub session_id: Seq<char>,
    pub content: Seq<char>,
    /// The catalog has the session, and it is not archived.
    pub session_checked: bool,
    /// The link to extend the chain with.
    pub record: Option<RootAdmissionRecordView>,
}

impl View for Admission {
    type V = AdmissionView;

    closed spec fn view(&self) -> AdmissionView {
        AdmissionView {
            session_id: self.session_id@,
            content: self.content@,
            session_checked: self.session_checked,
            record: opt(self.record),
        }
    }
}

/// What an answer makes of an admission: it goes on, or ends with the turn or the
/// reason why there is none.
pub open spec fn admission_next(a: AdmissionView, reply: AdmissionReply) -> Result<
    AdmissionView,
    Result<TurnStartedView, TurnErrorView>,
> {
    match (a.session_checked, a.record, reply) {
        (false, None, AdmissionReply::Session(found)) => match session_refusal(
            a.session_id,
            found,
        ) {
            Some(e) => Err(Err(e)),
            None => Ok(AdmissionView { session_checked: true, ..a }),
        },
        (true, None, AdmissionReply::Tip { tip, messages, now }) => match tip_refusal(tip) {
            Some(e) => Err(Err(e)),
            None => Ok(
                AdmissionView {
                    record: Some(
                        admission(
                            a.session_id,
                            messages as nat,
                            a.content,
                            opt(tip->Ok_0),
                            now,
                        ),
                    ),
                    ..a
                },
            ),
        },
        (_, Some(record), AdmissionReply::Extended(extended)) => match extended {
            Ok(_) => Err(Ok(started_turn(record))),
            Err(m) => Err(Err(TurnErrorView::Storage(m@))),
        },
        _ => Err(Err(TurnErrorView::Storage("unexpected store reply"@))),
    }
}

/// Where the turns stand behind an answer: the session is released when its turn
/// is refused, and its turn runs when the chain was extended.
pub open spec fn turns_after(
    turns: Map<Seq<char>, TurnPhase>,
    a: AdmissionView,
    reply: AdmissionReply,
) -> Map<Seq<char>, TurnPhase> {
    match admission_next(a, reply) {
        Ok(_) => turns,
        Err(Ok(_)) => turns.insert(a.session_id, TurnPhase::Running),
        Err(Err(_)) => turns.remove(a.session_id),
    }
}

impl Admission {
    /// The link is for the session that is being admitted.
    pub closed spec fn wf(&self) -> bool {
        self.record matches Some(r) ==> r.session_id@ == self.session_id@
    }

    /// What the admission asks of the store.
    pub fn action(&self) -> (r: AdmissionAction)
        ensures
            match self@.record {
                Some(record) => r matches AdmissionAction::Extend(x) && x@ == record,
                None => if self@.session_checked {
                    r is ReadTip
                } else {
                    r is FindSession
                },
            },
    {
        match &self.record {
            Some(record) => AdmissionAction::Extend(record.clone()),
            None => if self.session_checked {
                AdmissionAction::ReadTip
            } else {
                AdmissionAction::FindSession
            },
        }
    }
}

impl TurnCoordinator {
    /// Starts to admit a turn with the given content, unless the session has one.
    pub fn begin_turn(&mut self, session_id: &str, content: &str) -> (r: Result<
        Admission,
        TurnError,
    >)
        requires
            old(self).wf(),
        ensures
            final(self).wf(),
            match r {
                Ok(a) => !old(self).turns().contains_key(session_id@) && a.wf() && a@ == (
                AdmissionView {
                    session_id: session_id@,
                    content: content@,
                    session_checked: false,
                    record: None,
                }) && final(self).turns() == old(self).turns().insert(
                    session_id@,
                    TurnPhase::Admitting,
                ),
                Err(e) => old(self).turns().contains_key(session_id@) && e@
                    == TurnErrorView::SessionBusy && final(self).turns() == old(self).turns(),
            },
    {
        match self.start_turn(session_id) {
            Err(e) => Err(e),
            Ok(_) => Ok(
                Admission {
                    session_id: session_id.to_owned(),
                    content: content.to_owned(),
                    record: None,
                    session_checked: false,
                },
            ),
        }
    }

    fn give_up(&mut self, session_id: &str) -> (r: AdmissionStep)
        requires
            old(self).wf(),
        ensures
            final(self).wf(),
            final(self).turns() == old(self).turns().remove(session_id@),
            r matches AdmissionStep::Done(Err(e)) && e@ == TurnErrorView::Storage(
                "unexpected store reply"@,
            ),
    {
        self.settled(session_id);
        AdmissionStep::Done(Err(TurnError::Storage("unexpected store reply".to_owned())))
    }

    /// Takes in what the store answered to an admission's last action.
    pub fn advance(&mut self, a: Admission, reply: AdmissionReply) -> (r: AdmissionStep)
        requires
            old(self).wf(),
            a.wf(),
            reply matches AdmissionReply::Tip { messages, .. } ==> messages < usize::MAX,
        ensures
            final(self).wf(),
            final(self).turns() == turns_after(old(self).turns(), a@, reply),
            match r {
                AdmissionStep::Next(n) => n.wf() && admission_next(a@, reply) == Ok::<
                    AdmissionView,
                    Result<TurnStartedView, TurnErrorView>,
                >(n@),
                AdmissionStep::Done(Ok(t)) => admission_next(a@, reply) == Err::<
                    AdmissionView,
                    Result<TurnStartedView, TurnErrorView>,
                >(Ok(t@)),
                AdmissionStep::Done(Err(e)) => admission_next(a@, reply) == Err::<
                    AdmissionView,
                    Result<TurnStartedView, TurnErrorView>,
                >(Err(e@)),
            },
    {
        match a.record {
            Some(record) => match reply {
                AdmissionReply::Extended(extended) => AdmissionStep::Done(
                    self.admitted(&record, extended),
                ),
                _ => self.give_up(a.session_id.as_str()),
            },
            None => match reply {
                AdmissionReply::Session(found) => {
                    if a.session_checked {
                        return self.give_up(a.session_id.as_str());
                    }
                    match self.session_found(a.session_id.as_str(), found) {
                        Err(e) => AdmissionStep::Done(Err(e)),
                        Ok(_) => AdmissionStep::Next(
                            Admission {
                                session_id: a.session_id,
                                content: a.content,
                                record: None,
                                session_checked: true,
                            },
                        ),
                    }
                },
                AdmissionReply::Tip { tip, messages, now } => {
                    if !a.session_checked {
                        return self.give_up(a.session_id.as_str());
                    }
                    match self.tip_read(
                        a.session_id.as_str(),
                        messages,
                        a.content.as_str(),
                        tip,
                        now,
                    ) {
                        Err(e) => AdmissionStep::Done(Err(e)),
                        Ok(record) => AdmissionStep::Next(
                            Admission {
                                session_id: a.session_id,
                                content: a.content,
                                record: Some(record),
                                session_checked: true,
                            },
                        ),
                    }
                },
                _ => self.give_up(a.session_id.as_str()),
            },
        }
    }
}

/// A turn that is refused leaves its session as free as it was, and no step
/// touches the turn of another session.
pub proof fn law_refused_turn_releases_the_session(
    turns: Map<Seq<char>, TurnPhase>,
    a: AdmissionView,
    reply: AdmissionReply,
    other: Seq<char>,
)
    requires
        other != a.session_id,
    ensures
        admission_next(a, reply) matches Err(Err(_)) ==> !turns_after(
            turns,
            a,
            reply,
        ).contains_key(a.session_id),
        turns_after(turns, a, reply).contains_key(other) == turns.contains_key(other),
        turns.contains_key(other) ==> turns_after(turns, a, reply)[other] == turns[other],
{
}

/// A turn runs only if its session was in the catalog and not archived, the
/// admission chain was not poisoned, and the link that names the chain's tip was
/// made durable.
pub proof fn law_admitted_turn_is_durable(
    session_id: Seq<char>,
    content: Seq<char>,
    found: Result<Option<SessionRecord>, String>,
    tip: Result<Option<RootAdmissionRecord>, String>,
    messages: usize,
    now: i64,
    extended: Result<(), String>,
)
    ensures
        ({
            let a = AdmissionView { session_id, content, session_checked: false, record: None };
            let b = admission_next(a, AdmissionReply::Session(found));
            let c = admission_next(b->Ok_0, AdmissionReply::Tip { tip, messages, now });
            let d = admission_next(c->Ok_0, AdmissionReply::Extended(extended));
            (b is Ok && c is Ok && d matches Err(Ok(_))) <==> {
                &&& found matches Ok(Some(s)) && !s.is_archived
                &&& tip matches Ok(t) && (t matches Some(x) ==> !x.poisoned)
                &&& extended is Ok
            }
        }),
{
}

// ---------------------------------------------------------------------------
// The steps of a resume
// ---------------------------------------------------------------------------

/// A continuation that is being started: what is known of it so far.
#[derive(Debug)]
enum ResumeState {
    /// Nothing yet.
    Tip,
    /// The tip.
    HighWater(RootAdmissionRecord),
    /// The source run and turn, with the cursor checked.
    Identity { run_id: String, turn_id: String },
    /// The content and invocation of the source, too.
    Events { run_id: String, turn_id: String, source: SourceIdentity },
    /// The claim.
    Claiming { run_id: String, content: String, claim: ContinuationClaim },
    /// The claim is durable.
    Beginning { run_id: String, content: String },
}

/// What is known of a continuation that is being started.
pub enum ResumeStateView {
    Tip,
    HighWater(RootAdmissionRecordView),
    Identity { run_id: Seq<char>, turn_id: Seq<char> },
    Events {
        run_id: Seq<char>,
        turn_id: Seq<char>,
        content: Seq<char>,
        invocation_id: Seq<char>,
    },
    Claiming { run_id: Seq<char>, content: Seq<char>, claim: ContinuationClaimView },
    Beginning { run_id: Seq<char>, content: Seq<char> },
}

impl View for ResumeState {
    type V = ResumeStateView;

    closed spec fn view(&self) -> ResumeStateView {
        match *self {
            ResumeState::Tip => ResumeStateView::Tip,
            ResumeState::HighWater(tip) => ResumeStateView::HighWater(tip@),
            ResumeState::Identity { run_id, turn_id } => ResumeStateView::Identity {
                run_id: run_id@,
                turn_id: turn_id@,
            },
            ResumeState::Events { run_id, turn_id, source } => ResumeStateView::Events {
                run_id: run_id@,
                turn_id: turn_id@,
                content: source.content@,
                invocation_id: source.invocation_id@,
            },
            ResumeState::Claiming { run_id, content, claim } => ResumeStateView::Claiming {
                run_id: run_id@,
                content: content@,
                claim: claim@,
            },
            ResumeState::Beginning { run_id, content } => ResumeStateView::Beginning {
                run_id: run_id@,
                content: content@,
            },
        }
    }
}

/// What a resume asks of the host's services.
#[derive(Debug)]
pub enum ResumeAction {
    /// Read the tip of the session's admission chain.
    ReadTip,
    /// Read how many events of this run are durable.
    ReadHighWater(String),
    /// Read the session's events.
    ReadEvents,
    /// Record this claim.
    Claim(ContinuationClaim),
    /// Begin a turn with this content.
    Begin(String),
}

/// What the host's services answer.
#[derive(Debug)]
pub enum ResumeReply {
    Tip(Result<Option<RootAdmissionRecord>, String>),
    HighWater(Result<i64, String>),
    /// The session's events, the number of its messages, and the time.
    Events { events: Result<Vec<RuntimeEvent>, String>, messages: usize, now: i64 },
    Claimed(Result<(), String>),
    Begun(Result<TurnStarted, TurnError>),
}

/// A continuation of a session's latest run from the caller's cursor.
#[derive(Debug)]
pub struct Resume {
    session_id: String,
    cursor: i64,
    state: ResumeState,
}

/// What an answer leads to.
#[derive(Debug)]
pub enum ResumeStep {
    /// The resume goes on.
    Next(Resume),
    /// The continuation started, is parked, or failed.
    Done(Result<ResumeStart, TurnError>),
}

/// How a resume ends.
pub type Resumed = Result<ResumeStartView, TurnErrorView>;

/// What an answer makes of a resume: more is known, or it ends. `claim_id` is the
/// id of the claim that is made when the events were read.
pub open spec fn resume_next(
    session_id: Seq<char>,
    cursor: i64,
    state: ResumeStateView,
    reply: ResumeReply,
    claim_id: Seq<char>,
) -> Result<ResumeStateView, Resumed> {
    match (state, reply) {
        (ResumeStateView::Tip, ResumeReply::Tip(tip)) => match tip {
            Err(m) => Err(Err(TurnErrorView::Storage(m@))),
            Ok(t) => match tip_parks(opt(t)) {
                Some(reason) => Err(Ok(ResumeStartView::Parked { reason })),
                None => Ok(ResumeStateView::HighWater(t->0@)),
            },
        },
        (ResumeStateView::HighWater(tip), ResumeReply::HighWater(mark)) => match mark {
            Err(m) => Err(Err(TurnErrorView::Storage(m@))),
            Ok(n) => match drift(plan_for(tip, n), cursor) {
                Some(reason) => Err(Ok(ResumeStartView::Parked { reason })),
                None => Ok(
                    ResumeStateView::Identity { run_id: tip.run_id, turn_id: tip.turn_id },
                ),
            },
        },
        (ResumeStateView::Identity { run_id, turn_id }, ResumeReply::Tip(tip)) => match tip {
            Err(m) => Err(Err(TurnErrorView::Storage(m@))),
            Ok(None) => Err(Err(TurnErrorView::NotFound("admission tip vanished"@))),
            Ok(Some(t)) => Ok(
                ResumeStateView::Events {
                    run_id,
                    turn_id,
                    content: identity_member(value_parsed(t.identity_json@), "content"@),
                    invocation_id: identity_member(
                        value_parsed(t.identity_json@),
                        "invocationId"@,
                    ),
                },
            ),
        },
        (
            ResumeStateView::Events { run_id, turn_id, content, invocation_id },
            ResumeReply::Events { events, messages, now },
        ) => match events {
            Err(m) => Err(Err(TurnErrorView::Storage(m@))),
            Ok(events) => Ok(
                ResumeStateView::Claiming {
                    run_id,
                    content,
                    claim: claim(
                        ClaimSource {
                            session_id,
                            invocation_id,
                            run_id,
                            turn_id,
                            high_water: cursor,
                            prefix: run_prefix(event_views(events@), run_id),
                        },
                        messages as nat,
                        claim_id,
                        now,
                    ),
                },
            ),
        },
        (ResumeStateView::Claiming { run_id, content, .. }, ResumeReply::Claimed(recorded)) => match
            recorded {
            Err(m) => Err(Err(TurnErrorView::Storage(m@))),
            Ok(_) => Ok(ResumeStateView::Beginning { run_id, content }),
        },
        (ResumeStateView::Beginning { run_id, .. }, ResumeReply::Begun(begun)) => match begun {
            Ok(turn) => Err(
                Ok(
                    ResumeStartView::Started {
                        turn: turn@,
                        source_run_id: run_id,
                        source_runtime_event_high_water: cursor,
                    },
                ),
            ),
            Err(TurnError::SessionBusy) => Err(
                Ok(ResumeStartView::Parked { reason: "session_busy"@ }),
            ),
            Err(e) => Err(Err(e@)),
        },
        _ => Err(Err(TurnErrorView::Storage("unexpected store reply"@))),
    }
}

impl Resume {
    pub closed spec fn session(&self) -> Seq<char> {
        self.session_id@
    }

    pub closed spec fn cursor(&self) -> i64 {
        self.cursor
    }

    pub closed spec fn state(&self) -> ResumeStateView {
        self.state@
    }

    /// Starts to continue the latest run of a session from the caller's cursor.
    pub fn new(session_id: &str, cursor: i64) -> (r: Self)
        ensures
            r.session() == session_id@,
            r.cursor() == cursor,
            r.state() is Tip,
    {
        Resume { session_id: session_id.to_owned(), cursor, state: ResumeState::Tip }
    }

    /// What the resume asks of the host's services.
    pub fn action(&self) -> (r: ResumeAction)
        ensures
            match self.state() {
                ResumeStateView::Tip => r is ReadTip,
                ResumeStateView::HighWater(tip) => r matches ResumeAction::ReadHighWater(id) && id@
                    == tip.run_id,
                ResumeStateView::Identity { .. } => r is ReadTip,
                ResumeStateView::Events { .. } => r is ReadEvents,
                ResumeStateView::Claiming { claim, .. } => r matches ResumeAction::Claim(c) && c@
                    == claim,
                ResumeStateView::Beginning { content, .. } => r matches ResumeAction::Begin(c) && c@
                    == content,
            },
    {
        match &self.state {
            ResumeState::Tip => ResumeAction::ReadTip,
            ResumeState::HighWater(tip) => ResumeAction::ReadHighWater(tip.run_id.clone()),
            ResumeState::Identity { .. } => ResumeAction::ReadTip,
            ResumeState::Events { .. } => ResumeAction::ReadEvents,
            ResumeState::Claiming { claim, .. } => ResumeAction::Claim(claim.clone()),
            ResumeState::Beginning { content, .. } => ResumeAction::Begin(content.clone()),
        }
    }

    /// Takes in an answer; a claim that is made gets the id `claim_id`.
    pub fn advance_as(self, claim_id: &str, reply: ResumeReply) -> (r: ResumeStep)
        requires
            reply matches ResumeReply::Events { messages, .. } ==> messages < usize::MAX,
        ensures
            match r {
                ResumeStep::Next(n) => n.session() == self.session() && n.cursor() == self.cursor()
                    && resume_next(
                    self.session(),
                    self.cursor(),
                    self.state(),
                    reply,
                    claim_id@,
                ) == Ok::<ResumeStateView, Resumed>(n.state()),
                ResumeStep::Done(Ok(s)) => resume_next(
                    self.session(),
                    self.cursor(),
                    self.state(),
                    reply,
                    claim_id@,
                ) == Err::<ResumeStateView, Resumed>(Ok(s@)),
                ResumeStep::Done(Err(e)) => resume_next(
                    self.session(),
                    self.cursor(),
                    self.state(),
                    reply,
                    claim_id@,
                ) == Err::<ResumeStateView, Resumed>(Err(e@)),
            },
    {
        let session_id = self.session_id;
        let cursor = self.cursor;
        let state = match (self.state, reply) {
            (ResumeState::Tip, ResumeReply::Tip(tip)) => match resume_candidate(tip) {
                Err(e) => return ResumeStep::Done(Err(e)),
                Ok(Err(plan)) => match check_drift(&plan, cursor) {
                    Some(parked) => return ResumeStep::Done(Ok(parked)),
                    None => ResumeState::Tip,
                },
                Ok(Ok(t)) => ResumeState::HighWater(t),
            },
            (ResumeState::HighWater(tip), ResumeReply::HighWater(mark)) => match resume_query(
                &tip,
                mark,
            ) {
                Err(e) => return ResumeStep::Done(Err(e)),
                Ok(plan) => match check_drift(&plan, cursor) {
                    Some(parked) => return ResumeStep::Done(Ok(parked)),
                    None => ResumeState::Identity { run_id: tip.run_id, turn_id: tip.turn_id },
                },
            },
            (ResumeState::Identity { run_id, turn_id }, ResumeReply::Tip(tip)) => match
                source_identity(tip) {
                Err(e) => return ResumeStep::Done(Err(e)),
                Ok(source) => ResumeState::Events { run_id, turn_id, source },
            },
            (
                ResumeState::Events { run_id, turn_id, source },
                ResumeReply::Events { events, messages, now },
            ) => match events {
                Err(m) => return ResumeStep::Done(Err(TurnError::Storage(m))),
                Ok(events) => {
                    let claim = continuation_claim(
                        session_id.as_str(),
                        run_id.as_str(),
                        turn_id.as_str(),
                        &source,
                        cursor,
                        &events,
                        messages,
                        claim_id,
                        now,
                    );
                    ResumeState::Claiming { run_id, content: source.content, claim }
                },
            },
            (ResumeState::Claiming { run_id, content, .. }, ResumeReply::Claimed(recorded)) => match
                recorded {
                Err(m) => return ResumeStep::Done(Err(TurnError::Storage(m))),
                Ok(_) => ResumeState::Beginning { run_id, content },
            },
            (ResumeState::Beginning { run_id, .. }, ResumeReply::Begun(begun)) => {
                return ResumeStep::Done(resume_start(begun, run_id.as_str(), cursor));
            },
            _ => return ResumeStep::Done(
                Err(TurnError::Storage("unexpected store reply".to_owned())),
            ),
        };
        ResumeStep::Next(Resume { session_id, cursor, state })
    }

    /// Takes in an answer; a claim that is made gets a fresh id.
    pub fn advance(self, reply: ResumeReply) -> (r: ResumeStep)
        requires
            reply matches ResumeReply::Events { messages, .. } ==> messages < usize::MAX,
        ensures
            exists|id: Seq<char>|
                is_uuid_text(id) && match r {
                    ResumeStep::Next(n) => n.session() == self.session() && n.cursor()
                        == self.cursor() && #[trigger] resume_next(
                        self.session(),
                        self.cursor(),
                        self.state(),
                        reply,
                        id,
                    ) == Ok::<ResumeStateView, Resumed>(n.state()),
                    ResumeStep::Done(Ok(s)) => resume_next(
                        self.session(),
                        self.cursor(),
                        self.state(),
                        reply,
                        id,
                    ) == Err::<ResumeStateView, Resumed>(Ok(s@)),
                    ResumeStep::Done(Err(e)) => resume_next(
                        self.session(),
                        self.cursor(),
                        self.state(),
                        reply,
                        id,
                    ) == Err::<ResumeStateView, Resumed>(Err(e@)),
                },
    {
        let id = fresh_id();
        self.advance_as(id.as_str(), reply)
    }
}

/// A run is continued only from exactly the events that are durable, and one that
/// has moved on is parked. The continuation then carries the content of the run's
/// admission: neither the claim nor its recording changes it.
pub proof fn law_continuation_is_of_the_durable_run(
    session_id: Seq<char>,
    cursor: i64,
    tip: RootAdmissionRecordView,
    source: RootAdmissionRecord,
    events: Vec<RuntimeEvent>,
    messages: usize,
    mark: i64,
    now: i64,
    claim_id: Seq<char>,
)
    ensures
        ({
            let content = identity_member(value_parsed(source.identity_json@), "content"@);
            let read = resume_next(
                session_id,
                cursor,
                ResumeStateView::HighWater(tip),
                ResumeReply::HighWater(Ok(mark)),
                claim_id,
            );
            let known = resume_next(
                session_id,
                cursor,
                read->Ok_0,
                ResumeReply::Tip(Ok(Some(source))),
                claim_id,
            );
            let claiming = resume_next(
                session_id,
                cursor,
                known->Ok_0,
                ResumeReply::Events { events: Ok(events), messages, now },
                claim_id,
            );
            if mark == cursor && mark != 0 {
                &&& read is Ok && known is Ok && claiming is Ok
                &&& claiming->Ok_0 matches ResumeStateView::Claiming { run_id, content: c, .. }
                    && run_id == tip.run_id && c == content
                &&& resume_next(
                    session_id,
                    cursor,
                    claiming->Ok_0,
                    ResumeReply::Claimed(Ok(())),
                    claim_id,
                ) == Ok::<ResumeStateView, Resumed>(
                    ResumeStateView::Beginning { run_id: tip.run_id, content },
                )
            } else {
                read matches Err(Ok(ResumeStartView::Parked { .. }))
            }
        }),
{
}

/// What an admission records: the turn after `n` messages is `turn-`, its run `run-` and its
/// invocation `inv-`, each with the number behind `n`; the link is of its session and time;
/// and the identity that it keeps names that turn, run and invocation and the content.
pub proof fn law_admissions_record_the_turn(
    session_id: Seq<char>,
    messages: nat,
    content: Seq<char>,
    tip: Option<RootAdmissionRecordView>,
    now: i64,
)
    ensures
        ({
            let a = admission(session_id, messages, content, tip, now);
            let n = decimal(messages + 1);
            let v = identity_json(messages, content);
            &&& a.session_id == session_id
            &&& a.turn_id == "turn-"@ + n
            &&& a.run_id == "run-"@ + n
            &&& a.admitted_at == now
            &&& a.identity_json == json_text(v)
            &&& v.text_at("content"@) == Some(content)
            &&& v.text_at("turnId"@) == Some("turn-"@ + n)
            &&& v.text_at("runId"@) == Some("run-"@ + n)
            &&& v.text_at("invocationId"@) == Some("inv-"@ + n)
            &&& identity_member(Ok(v), "content"@) == content
            &&& identity_member(Ok(v), "invocationId"@) == "inv-"@ + n
        }),
{
    let f: Seq<crate::json::Field> = Seq::empty().push(("content"@, Some(JsonView::Text(content)))).push(("invocationId"@, Some(JsonView::Text(invocation_id(messages))))).push(("runId"@, Some(JsonView::Text(run_id(messages))))).push(("turnId"@, Some(JsonView::Text(turn_id(messages)))));
    assert(crate::text::text_lt("content"@, "invocationId"@)) by {
        reveal_strlit("content");
        reveal_strlit("invocationId");
        assert(crate::text::lt_at("content"@, "invocationId"@, 0));
    };
    assert(crate::text::text_lt("invocationId"@, "runId"@)) by {
        reveal_strlit("invocationId");
        reveal_strlit("runId");
        assert(crate::text::lt_at("invocationId"@, "runId"@, 0));
    };
    assert(crate::text::text_lt("runId"@, "turnId"@)) by {
        reveal_strlit("runId");
        reveal_strlit("turnId");
        assert(crate::text::lt_at("runId"@, "turnId"@, 0));
    };
    crate::schema::lemma_step_ascends(f);
    crate::schema::lemma_lookup(f, 0);
    crate::schema::lemma_lookup(f, 1);
    crate::schema::lemma_lookup(f, 2);
    crate::schema::lemma_lookup(f, 3);
}

/// Why a turn is refused: a session that is not in the catalog is not found, an archived
/// one is archived, a poisoned chain is poisoned, and what the store fails with is passed
/// on; nothing else is.
pub proof fn law_refusals_say_why(
    session_id: Seq<char>,
    found: Result<Option<SessionRecord>, String>,
    tip: Result<Option<RootAdmissionRecord>, String>,
)
    ensures
        match found {
            Ok(Some(s)) => if s.is_archived {
                session_refusal(session_id, found) == Some(
                    TurnErrorView::SessionArchived(session_id),
                )
            } else {
                session_refusal(session_id, found) is None
            },
            Ok(None) => session_refusal(session_id, found) matches Some(TurnErrorView::NotFound(_)),
            Err(m) => session_refusal(session_id, found) == Some(TurnErrorView::Storage(m@)),
        },
        match tip {
            Ok(Some(t)) => if t.poisoned {
                tip_refusal(tip) == Some(TurnErrorView::SessionPoisoned)
            } else {
                tip_refusal(tip) is None
            },
            Ok(None) => tip_refusal(tip) is None,
            Err(m) => tip_refusal(tip) == Some(TurnErrorView::Storage(m@)),
        },
{
}

/// A turn that starts is the one that was admitted, and runs; and a turn can be stopped
/// exactly while it runs.
pub proof fn law_started_turns_can_be_stopped(
    record: RootAdmissionRecordView,
    c: &TurnCoordinator,
    session_id: &str,
    r: Result<TurnStopped, TurnError>,
)
    requires
        c.wf(),
        call_ensures(TurnCoordinator::stop_turn, (c, session_id), r),
    ensures
        started_turn(record).session_id == record.session_id,
        started_turn(record).turn_id == record.turn_id,
        started_turn(record).run_id == record.run_id,
        started_turn(record).status == "running"@,
        r is Ok <==> c.turns().contains_key(session_id@) && c.turns()[session_id@]
            == TurnPhase::Running,
        r matches Ok(t) ==> t.session_id@ == session_id@ && t.status@ == "request_stop"@,
        r matches Err(e) ==> e is NotFound,
{
}

/// Whether a run can be resumed: not without an admission, not where the chain is
/// poisoned, and not where nothing of the run is durable; otherwise from the tip's own run
/// and turn, at the number of events that are durable.
pub proof fn law_resume_plans(tip: Option<RootAdmissionRecordView>, high_water: i64)
    ensures
        tip is None ==> tip_parks(tip) == Some("resume_candidate_missing"@),
        tip matches Some(t) ==> (if t.poisoned {
            tip_parks(tip) == Some("safety_check_failed"@)
        } else {
            tip_parks(tip) is None
        }),
        tip matches Some(t) ==> plan_for(t, high_water) == (if high_water == 0 {
            ResumePlanView::Parked { reason: "source_run_unreadable"@ }
        } else {
            ResumePlanView::Ready {
                source_run_id: t.run_id,
                source_turn_id: Some(t.turn_id),
                source_runtime_event_high_water: high_water,
            }
        }),
{
}

/// What a claim authenticates are the events of its own run, in order: an event of
/// another run makes no difference, and one of this run is appended.
pub proof fn law_prefixes_are_of_one_run(
    events: Seq<RuntimeEventView>,
    e: RuntimeEventView,
    run_id: Seq<char>,
)
    ensures
        run_prefix(Seq::empty(), run_id).len() == 0,
        e.run_id != run_id ==> run_prefix(events.push(e), run_id) == run_prefix(events, run_id),
        e.run_id == run_id ==> run_prefix(events.push(e), run_id) == run_prefix(events, run_id)
            + ordered_text(e.declared_json()),
{
    assert(events.push(e).drop_last() =~= events);
}

/// A claim names what it continues and what continues it: the source as it was given, the
/// target as the turn behind the messages in the same session, and the digests of the
/// source's events and of the boundary between the two.
pub proof fn law_claims_name_source_and_target(
    source: ClaimSource,
    messages: nat,
    claim_id: Seq<char>,
    now: i64,
)
    ensures
        ({
            let c = claim(source, messages, claim_id, now);
            let n = decimal(messages + 1);
            let digest = |text: Seq<char>| hex(sha256(encode_utf8(text)));
            let b = boundary_json(source, messages);
            let h = run_header_json(messages);
            &&& c.claim_id == claim_id
            &&& c.claimed_at == now
            &&& c.source_session_id == source.session_id
            &&& c.source_invocation_id == source.invocation_id
            &&& c.source_run_id == source.run_id
            &&& c.source_turn_id == source.turn_id
            &&& c.source_event_high_water == source.high_water
            &&& c.target_session_id == source.session_id
            &&& c.target_turn_id == "turn-"@ + n
            &&& c.target_run_id == "run-"@ + n
            &&& c.target_invocation_id == "inv-"@ + n
            &&& c.source_prefix_digest == digest(source.prefix)
            &&& c.provider_replay_digest == digest(source.prefix)
            &&& c.boundary_digest == digest(
                digest(source.prefix) + ":"@ + ("turn-"@ + n) + ":"@ + ("run-"@ + n) + ":"@
                    + signed_decimal(source.high_water as int),
            )
            &&& c.boundary_json == json_text(b)
            &&& b.get("sourceHighWater"@) == Some(JsonView::Number(source.high_water as int))
            &&& b.text_at("sourceRunId"@) == Some(source.run_id)
            &&& b.text_at("targetTurnId"@) == Some("turn-"@ + n)
            &&& c.target_run_header_json == json_text(h)
            &&& h.text_at("runId"@) == Some("run-"@ + n)
            &&& h.text_at("turnId"@) == Some("turn-"@ + n)
            &&& c.protocol_version == 1
            &&& c.provider_projection_version == 1
            &&& c.start_event_id is None && c.start_kind is None
        }),
{
    let f: Seq<crate::json::Field> = Seq::empty().push(("sourceHighWater"@, Some(JsonView::Number(source.high_water as int)))).push(("sourceRunId"@, Some(JsonView::Text(source.run_id)))).push(("targetTurnId"@, Some(JsonView::Text(turn_id(messages)))));
    assert(crate::text::text_lt("sourceHighWater"@, "sourceRunId"@)) by {
        reveal_strlit("sourceHighWater");
        reveal_strlit("sourceRunId");
        assert(crate::text::lt_at("sourceHighWater"@, "sourceRunId"@, 6));
    };
    assert(crate::text::text_lt("sourceRunId"@, "targetTurnId"@)) by {
        reveal_strlit("sourceRunId");
        reveal_strlit("targetTurnId");
        assert(crate::text::lt_at("sourceRunId"@, "targetTurnId"@, 0));
    };
    crate::schema::lemma_step_ascends(f);
    crate::schema::lemma_lookup(f, 0);
    crate::schema::lemma_lookup(f, 1);
    crate::schema::lemma_lookup(f, 2);
    let g: Seq<crate::json::Field> = Seq::empty().push(("runId"@, Some(JsonView::Text(run_id(messages))))).push(("turnId"@, Some(JsonView::Text(turn_id(messages)))));
    assert(crate::text::text_lt("runId"@, "turnId"@)) by {
        reveal_strlit("runId");
        reveal_strlit("turnId");
        assert(crate::text::lt_at("runId"@, "turnId"@, 0));
    };
    crate::schema::lemma_step_ascends(g);
    crate::schema::lemma_lookup(g, 0);
    crate::schema::lemma_lookup(g, 1);
}

/// What holds of the turns behind an answer to an admission: only a link that was made
/// durable makes the turn run; while the admission goes on nothing changes; and a session
/// that has no turn left is free.
pub proof fn law_only_durable_turns_run(
    turns: Map<Seq<char>, TurnPhase>,
    a: AdmissionView,
    reply: AdmissionReply,
)
    ensures
        ({
            let now = turns_after(turns, a, reply);
            let id = a.session_id;
            let durable = a.record is Some && reply matches AdmissionReply::Extended(Ok(_));
            &&& durable ==> now.contains_key(id) && now[id] == TurnPhase::Running
            &&& !durable ==> now == turns || !now.contains_key(id)
            &&& admission_next(a, reply) is Ok ==> now == turns
            &&& durable ==> (admission_next(a, reply) matches Err(Ok(t)) && t.session_id
                == a.record->0.session_id && t.turn_id == a.record->0.turn_id && t.run_id
                == a.record->0.run_id && t.status == "running"@)
        }),
{
}

/// How a resume is answered once its turn was begun: a turn that runs is named with the
/// run that it continues and from where; a busy session parks it; and any other refusal is
/// passed on.
pub proof fn law_resumes_are_answered(
    begun: Result<TurnStarted, TurnError>,
    source_run_id: &str,
    high_water: i64,
    r: Result<ResumeStart, TurnError>,
)
    requires
        call_ensures(resume_start, (begun, source_run_id, high_water), r),
    ensures
        match begun {
            Ok(turn) => r matches Ok(ResumeStart::Started {
                turn: t,
                source_run_id: run,
                source_runtime_event_high_water: mark,
            }) && t@ == turn@ && run@ == source_run_id@ && mark == high_water,
            Err(TurnError::SessionBusy) => r matches Ok(ResumeStart::Parked { reason }) && reason@
                == "session_busy"@,
            Err(e) => r == Err::<ResumeStart, TurnError>(e),
        },
{
}

impl TurnStartedView {
    /// The members of the JSON object, each under its own name.
    pub proof fn law_members(self)
        ensures
            self.json().get("runId"@) == Some(JsonView::Text(self.run_id)),
            self.json().get("sessionId"@) == Some(JsonView::Text(self.session_id)),
            self.json().get("status"@) == Some(JsonView::Text(self.status)),
            self.json().get("turnId"@) == Some(JsonView::Text(self.turn_id)),
    {
        let f: Seq<crate::json::Field> = Seq::empty().push(("runId"@, Some(JsonView::Text(self.run_id)))).push(("sessionId"@, Some(JsonView::Text(self.session_id)))).push(("status"@, Some(JsonView::Text(self.status)))).push(("turnId"@, Some(JsonView::Text(self.turn_id))));
        assert(crate::text::text_lt("runId"@, "sessionId"@)) by {
            reveal_strlit("runId");
            reveal_strlit("sessionId");
            assert(crate::text::lt_at("runId"@, "sessionId"@, 0));
        };
        assert(crate::text::text_lt("sessionId"@, "status"@)) by {
            reveal_strlit("sessionId");
            reveal_strlit("status");
            assert(crate::text::lt_at("sessionId"@, "status"@, 1));
        };
        assert(crate::text::text_lt("status"@, "turnId"@)) by {
            reveal_strlit("status");
            reveal_strlit("turnId");
            assert(crate::text::lt_at("status"@, "turnId"@, 0));
        };
        crate::schema::lemma_step_ascends(f);
        crate::schema::lemma_lookup(f, 0);
        crate::schema::lemma_lookup(f, 1);
        crate::schema::lemma_lookup(f, 2);
        crate::schema::lemma_lookup(f, 3);
    }
}

impl TurnStoppedView {
    /// The members of the JSON object, each under its own name.
    pub proof fn law_members(self)
        ensures
            self.json().get("sessionId"@) == Some(JsonView::Text(self.session_id)),
            self.json().get("status"@) == Some(JsonView::Text(self.status)),
    {
        let f: Seq<crate::json::Field> = Seq::empty().push(("sessionId"@, Some(JsonView::Text(self.session_id)))).push(("status"@, Some(JsonView::Text(self.status))));
        assert(crate::text::text_lt("sessionId"@, "status"@)) by {
            reveal_strlit("sessionId");
            reveal_strlit("status");
            assert(crate::text::lt_at("sessionId"@, "status"@, 1));
        };
        crate::schema::lemma_step_ascends(f);
        crate::schema::lemma_lookup(f, 0);
        crate::schema::lemma_lookup(f, 1);
    }
}

impl ResumePlanView {
    /// The members of the JSON object, each under its own name.
    pub proof fn law_members(self)
        ensures
            match self {
                ResumePlanView::Ready { source_run_id, source_turn_id, source_runtime_event_high_water } => {
                    &&& self.json().get("disposition"@) == (Some(JsonView::Text("ready"@)))
                    &&& self.json().get("sourceRunId"@) == (Some(JsonView::Text(source_run_id)))
                    &&& self.json().get("sourceRuntimeEventHighWater"@) == (Some(JsonView::Number(source_runtime_event_high_water as int)))
                    &&& self.json().get("sourceTurnId"@) == (match source_turn_id { Some(id) => Some(JsonView::Text(id)), None => Some(JsonView::Null) })
                },
                ResumePlanView::Parked { reason } => {
                    &&& self.json().get("disposition"@) == (Some(JsonView::Text("parked"@)))
                    &&& self.json().get("reason"@) == (Some(JsonView::Text(reason)))
                },
            },
    {
        match self {
            ResumePlanView::Ready { source_run_id, source_turn_id, source_runtime_event_high_water } => {
                let f: Seq<crate::json::Field> = Seq::empty().push(("disposition"@, Some(JsonView::Text("ready"@)))).push(("sourceRunId"@, Some(JsonView::Text(source_run_id)))).push(("sourceRuntimeEventHighWater"@, Some(JsonView::Number(source_runtime_event_high_water as int)))).push(("sourceTurnId"@, match source_turn_id { Some(id) => Some(JsonView::Text(id)), None => Some(JsonView::Null) }));
                assert(crate::text::text_lt("disposition"@, "sourceRunId"@)) by {
                    reveal_strlit("disposition");
                    reveal_strlit("sourceRunId");
                    assert(crate::text::lt_at("disposition"@, "sourceRunId"@, 0));
                };
                assert(crate::text::text_lt("sourceRunId"@, "sourceRuntimeEventHighWater"@)) by {
                    reveal_strlit("sourceRunId");
                    reveal_strlit("sourceRuntimeEventHighWater");
                    assert(crate::text::lt_at("sourceRunId"@, "sourceRuntimeEventHighWater"@, 9));
                };
                assert(crate::text::text_lt("sourceRuntimeEventHighWater"@, "sourceTurnId"@)) by {
                    reveal_strlit("sourceRuntimeEventHighWater");
                    reveal_strlit("sourceTurnId");
                    assert(crate::text::lt_at("sourceRuntimeEventHighWater"@, "sourceTurnId"@, 6));
                };
                crate::schema::lemma_step_ascends(f);
                crate::schema::lemma_lookup(f, 0);
                crate::schema::lemma_lookup(f, 1);
                crate::schema::lemma_lookup(f, 2);
                crate::schema::lemma_lookup(f, 3);
            },
            ResumePlanView::Parked { reason } => {
                let f: Seq<crate::json::Field> = Seq::empty().push(("disposition"@, Some(JsonView::Text("parked"@)))).push(("reason"@, Some(JsonView::Text(reason))));
                assert(crate::text::text_lt("disposition"@, "reason"@)) by {
                    reveal_strlit("disposition");
                    reveal_strlit("reason");
                    assert(crate::text::lt_at("disposition"@, "reason"@, 0));
                };
                crate::schema::lemma_step_ascends(f);
                crate::schema::lemma_lookup(f, 0);
                crate::schema::lemma_lookup(f, 1);
            },
        }
    }
}

impl ResumeStartView {
    /// The members of the JSON object, each under its own name.
    pub proof fn law_members(self)
        ensures
            match self {
                ResumeStartView::Started { turn, source_run_id, source_runtime_event_high_water } => {
                    &&& self.json().get("kind"@) == (Some(JsonView::Text("started"@)))
                    &&& self.json().get("runId"@) == (Some(JsonView::Text(turn.run_id)))
                    &&& self.json().get("sessionId"@) == (Some(JsonView::Text(turn.session_id)))
                    &&& self.json().get("sourceRunId"@) == (Some(JsonView::Text(source_run_id)))
                    &&& self.json().get("sourceRuntimeEventHighWater"@) == (Some(JsonView::Number(source_runtime_event_high_water as int)))
                    &&& self.json().get("status"@) == (Some(JsonView::Text(turn.status)))
                    &&& self.json().get("turnId"@) == (Some(JsonView::Text(turn.turn_id)))
                },
                ResumeStartView::Parked { reason } => {
                    &&& self.json().get("kind"@) == (Some(JsonView::Text("parked"@)))
                    &&& self.json().get("reason"@) == (Some(JsonView::Text(reason)))
                },
            },
    {
        match self {
            ResumeStartView::Started { turn, source_run_id, source_runtime_event_high_water } => {
                let f: Seq<crate::json::Field> = Seq::empty().push(("kind"@, Some(JsonView::Text("started"@)))).push(("runId"@, Some(JsonView::Text(turn.run_id)))).push(("sessionId"@, Some(JsonView::Text(turn.session_id)))).push(("sourceRunId"@, Some(JsonView::Text(source_run_id)))).push(("sourceRuntimeEventHighWater"@, Some(JsonView::Number(source_runtime_event_high_water as int)))).push(("status"@, Some(JsonView::Text(turn.status)))).push(("turnId"@, Some(JsonView::Text(turn.turn_id))));
                assert(crate::text::text_lt("kind"@, "runId"@)) by {
                    reveal_strlit("kind");
                    reveal_strlit("runId");
                    assert(crate::text::lt_at("kind"@, "runId"@, 0));
                };
                assert(crate::text::text_lt("runId"@, "sessionId"@)) by {
                    reveal_strlit("runId");
                    reveal_strlit("sessionId");
                    assert(crate::text::lt_at("runId"@, "sessionId"@, 0));
                };
                assert(crate::text::text_lt("sessionId"@, "sourceRunId"@)) by {
                    reveal_strlit("sessionId");
                    reveal_strlit("sourceRunId");
                    assert(crate::text::lt_at("sessionId"@, "sourceRunId"@, 1));
                };
                assert(crate::text::text_lt("sourceRunId"@, "sourceRuntimeEventHighWater"@)) by {
                    reveal_strlit("sourceRunId");
                    reveal_strlit("sourceRuntimeEventHighWater");
                    assert(crate::text::lt_at("sourceRunId"@, "sourceRuntimeEventHighWater"@, 9));
                };
                assert(crate::text::text_lt("sourceRuntimeEventHighWater"@, "status"@)) by {
                    reveal_strlit("sourceRuntimeEventHighWater");
                    reveal_strlit("status");
                    assert(crate::text::lt_at("sourceRuntimeEventHighWater"@, "status"@, 1));
                };
                assert(crate::text::text_lt("status"@, "turnId"@)) by {
                    reveal_strlit("status");
                    reveal_strlit("turnId");
                    assert(crate::text::lt_at("status"@, "turnId"@, 0));
                };
                crate::schema::lemma_step_ascends(f);
                crate::schema::lemma_lookup(f, 0);
                crate::schema::lemma_lookup(f, 1);
                crate::schema::lemma_lookup(f, 2);
                crate::schema::lemma_lookup(f, 3);
                crate::schema::lemma_lookup(f, 4);
                crate::schema::lemma_lookup(f, 5);
                crate::schema::lemma_lookup(f, 6);
            },
            ResumeStartView::Parked { reason } => {
                let f: Seq<crate::json::Field> = Seq::empty().push(("kind"@, Some(JsonView::Text("parked"@)))).push(("reason"@, Some(JsonView::Text(reason))));
                assert(crate::text::text_lt("kind"@, "reason"@)) by {
                    reveal_strlit("kind");
                    reveal_strlit("reason");
                    assert(crate::text::lt_at("kind"@, "reason"@, 0));
                };
                crate::schema::lemma_step_ascends(f);
                crate::schema::lemma_lookup(f, 0);
                crate::schema::lemma_lookup(f, 1);
            },
        }
    }
}

/// What the host's services fail with ends a resume: the failure is passed on as it is, and
/// nothing is claimed or begun behind it.
pub proof fn law_failures_end_a_resume(
    session_id: Seq<char>,
    cursor: i64,
    state: ResumeStateView,
    message: String,
    claim_id: Seq<char>,
    messages: usize,
    now: i64,
)
    ensures
        ({
            let fails = |reply: ResumeReply|
                resume_next(session_id, cursor, state, reply, claim_id) == Err::<
                    ResumeStateView,
                    Resumed,
                >(Err(TurnErrorView::Storage(message@)));
            &&& state is Tip || state is Identity ==> fails(ResumeReply::Tip(Err(message)))
            &&& state is HighWater ==> fails(ResumeReply::HighWater(Err(message)))
            &&& state is Events ==> fails(ResumeReply::Events { events: Err(message), messages, now })
            &&& state is Claiming ==> fails(ResumeReply::Claimed(Err(message)))
            &&& state is Identity ==> (resume_next(
                session_id,
                cursor,
                state,
                ResumeReply::Tip(Ok(None)),
                claim_id,
            ) matches Err(Err(TurnErrorView::NotFound(m))) && m == "admission tip vanished"@)
        }),
{
}

/// The identity of a turn numbers it behind the messages that the session holds: turn, run
/// and invocation bear the same number, each with its own word before it.
pub proof fn law_turns_are_numbered(messages: usize, r: TurnIdentity)
    requires
        messages < usize::MAX,
        call_ensures(turn_identity, (messages,), r),
    ensures
        r.turn_id@ == "turn-"@ + decimal((messages + 1) as nat),
        r.run_id@ == "run-"@ + decimal((messages + 1) as nat),
        r.invocation_id@ == "inv-"@ + decimal((messages + 1) as nat),
{
}

/// The messages of refused turns: each says what refused the turn.
pub proof fn law_turn_errors_have_messages(e: &TurnError, r: String)
    requires
        call_ensures(TurnError::message, (e,), r),
    ensures
        e is SessionBusy ==> r@ == "session busy: a turn is already running"@,
        e is SessionPoisoned ==> r@ == "session poisoned: admission chain marked poisoned"@,
        *e matches TurnError::NotFound(m) ==> r@ == "not found: "@ + m@,
        *e matches TurnError::SessionArchived(m) ==> r@ == "session archived: "@ + m@,
        *e matches TurnError::Storage(m) ==> r@ == "storage: "@ + m@,
{
}

} // verus!
