//! The host as a whole, driven frame by frame over the codec: sessions, turns,
//! subscriptions, interactions and resume.

use std::collections::HashMap;

use bytes::BytesMut;
use meepo::client::connection::{
    handshake_reply, opening_frame, ClientError, HostClient, Progress,
};
use meepo::continuity::coordinator::{Delivery, SessionContinuityCoordinator};
use meepo::handlers::interaction::{answer_input, answer_outcome, query_outcome, InteractionOp};
use meepo::handlers::registry::Handler;
use meepo::handlers::session::{resume, start, SessionOp, SessionReply, SessionStep};
use meepo::handlers::subscription::{close_input, close_outcome, open_outcome, SubscriptionOp};
use meepo::handlers::turn::{
    resume_cursor, resume_query_outcome, resume_start_outcome, session_input, start_input,
    start_outcome, stop_outcome, TurnOp,
};
use meepo::handlers::{host, interaction, session, subscription, turn};
use meepo::interaction::{
    PermissionAnswer, PermissionDecision, PermissionReason, PermissionRequest,
};
use meepo::json::Json;
use meepo::permission::ToolCategory;
use meepo::protocol::codec::LfCodec;
use meepo::protocol::envelope::{decode_host_frame, HostFrame};
use meepo::protocol::errors::OpErrorCode;
use meepo::protocol::handshake::{HandshakeResult, HandshakeSurface, HelloFrame, LifecycleState};
use meepo::runtime_event::{Author, Content, Role, RuntimeEvent, Status};
use meepo::server::connection::{
    answer, handshake, handshake_as, next_request, route, Connection, ConnectionAction, Routed,
};
use meepo::server::dispatcher::{enforce_declared, respond, Dispatcher, OpContext, Outcome};
use meepo::server::interaction::{unanswered, AnswerError, InteractionContext, InteractionHub};
use meepo::server::kernel::{
    HostKernel, ServeAction, ServeEvent, ServeOutcome, ServeOwned, DRAIN_GRACE_MS, DRAIN_POLL_MS,
};
use meepo::server::records::{
    ContinuationClaim, RootAdmissionRecord, SessionRecord, SessionUpdate,
};
use meepo::server::turn::{
    resume_candidate, resume_query, resume_start, source_identity, source_prefix,
    turn_identity, AdmissionAction, AdmissionReply, AdmissionStep, Resume, ResumeAction,
    ResumePlan, ResumeReply, ResumeStart, ResumeStep, TurnCoordinator, TurnError, TurnStarted,
};
use meepo::store::{InMemoryRuntimeEventStore, RuntimeEventStore};
use sha2::Digest;

fn json(text: &str) -> Json {
    Json::parse(text).expect("valid json")
}

fn over_the_wire(v: Json) -> Json {
    let mut buf = BytesMut::new();
    LfCodec.encode(v, &mut buf).expect("encode");
    LfCodec.decode(&mut buf).expect("decode").expect("one frame")
}

/// What the store holds.
#[derive(Default)]
struct Rows {
    sessions: Vec<SessionRecord>,
    admissions: HashMap<String, Vec<RootAdmissionRecord>>,
    claims: Vec<ContinuationClaim>,
}

impl Rows {
    fn find(&self, id: &str) -> Option<SessionRecord> {
        self.sessions.iter().find(|s| s.session_id == id).cloned()
    }

    fn tip(&self, id: &str) -> Option<RootAdmissionRecord> {
        self.admissions.get(id).and_then(|a| a.last()).cloned()
    }

    fn perform(&mut self, step: &SessionStep) -> SessionReply {
        match step {
            SessionStep::Reply(_) => panic!("nothing to perform"),
            SessionStep::Create(rec) => {
                if self.find(&rec.session_id).is_some() {
                    return SessionReply::Created(Err("exists".into()));
                }
                self.sessions.push(rec.clone());
                SessionReply::Created(Ok(()))
            }
            SessionStep::List => SessionReply::Listed(Ok(self.sessions.clone())),
            SessionStep::Rebase { session_id, .. } => {
                SessionReply::Found(Ok(self.find(session_id)))
            }
            SessionStep::Update { session_id, expected, patch } => {
                let rec = match self.sessions.iter_mut().find(|s| s.session_id == *session_id) {
                    Some(rec) => rec,
                    None => return SessionReply::Updated(Err("no such session".into())),
                };
                if rec.revision != *expected {
                    return SessionReply::Updated(Ok(SessionUpdate::RevisionConflict {
                        expected: *expected,
                        current: rec.revision,
                    }));
                }
                rec.revision += 1;
                if let Some(name) = &patch.name {
                    rec.name = name.clone();
                }
                if let Some(labels) = &patch.labels {
                    rec.labels = labels.clone();
                }
                if let Some(cwd) = &patch.cwd {
                    rec.cwd = cwd.clone();
                }
                if let Some(config) = &patch.config_json {
                    rec.config_json = config.clone();
                }
                if let Some(marker) = &patch.read_marker {
                    rec.read_marker = Some(marker.clone());
                }
                if let Some(archived) = patch.is_archived {
                    rec.is_archived = archived;
                }
                SessionReply::Updated(Ok(SessionUpdate::Committed(rec.clone())))
            }
            SessionStep::Remove { session_id } => {
                let before = self.sessions.len();
                self.sessions.retain(|s| s.session_id != *session_id);
                SessionReply::Removed(Ok(self.sessions.len() < before))
            }
        }
    }
}

/// What a turn's backend does.
#[derive(Clone, Copy, PartialEq)]
enum Script {
    Says(&'static str),
    UntilStopped,
}

struct Host {
    ctx: OpContext,
    connection: Connection,
    dispatcher: Dispatcher<Handler>,
    rows: Rows,
    events: InMemoryRuntimeEventStore,
    messages: HashMap<String, usize>,
    turns: TurnCoordinator,
    hub: InteractionHub,
    continuity: SessionContinuityCoordinator,
    script: Script,
    running: Option<TurnStarted>,
    pushes: Vec<Json>,
}

impl Host {
    fn new(epoch: &str, script: Script) -> Self {
        let mut dispatcher = Dispatcher::new();
        host::register(&mut dispatcher);
        session::register(&mut dispatcher);
        turn::register(&mut dispatcher);
        interaction::register(&mut dispatcher);
        subscription::register(&mut dispatcher);
        Host {
            ctx: OpContext { host_epoch: epoch.into(), lifecycle: LifecycleState::Ready },
            connection: Connection::new(),
            dispatcher,
            rows: Rows::default(),
            events: InMemoryRuntimeEventStore::new(),
            messages: HashMap::new(),
            turns: TurnCoordinator::new(),
            hub: InteractionHub::new(),
            continuity: SessionContinuityCoordinator::new(),
            script,
            running: None,
            pushes: Vec::new(),
        }
    }

    fn deliver(&mut self, deliveries: Vec<Delivery>) {
        for d in deliveries {
            self.pushes.push(d.frame.to_json());
        }
    }

    fn publish_pending(&mut self, session_id: &str) {
        let views = self.hub.pending_for_session(session_id);
        let epoch = self.ctx.host_epoch.clone();
        let out = self.continuity.set_pending_interactions(session_id, &epoch, views);
        self.deliver(out);
    }

    fn emit(&mut self, t: &TurnStarted, id: &str, text: Option<&str>, status: Option<Status>) {
        let event = RuntimeEvent {
            session_id: t.session_id.clone(),
            invocation_id: "inv".into(),
            run_id: t.run_id.clone(),
            turn_id: t.turn_id.clone(),
            branch: None,
            id: format!("{}-{id}", t.run_id),
            ts: 0,
            role: Role::Model,
            author: Author::Agent,
            origin: None,
            model_visibility: None,
            status,
            content: text.map(|s| Content::Text {
                text: s.into(),
                provider_options: None,
                steering: None,
            }),
            actions: None,
            refs: None,
            partial: None,
        };
        let epoch = self.ctx.host_epoch.clone();
        let out = self.continuity.accept_runtime_event(&t.session_id, &t.run_id, &epoch, &event);
        self.deliver(out);
        if status.is_some() {
            self.events
                .ensure_terminal_runtime_event_durable(&t.session_id, &t.run_id, event)
                .unwrap();
        } else {
            self.events.append_runtime_event(&t.session_id, &t.run_id, event, true).unwrap();
        }
    }

    fn begin_turn(&mut self, session_id: &str, content: &str) -> Result<TurnStarted, TurnError> {
        let mut admission = self.turns.begin_turn(session_id, content)?;
        let started = loop {
            let reply = match admission.action() {
                AdmissionAction::FindSession => {
                    AdmissionReply::Session(Ok(self.rows.find(session_id)))
                }
                AdmissionAction::ReadTip => AdmissionReply::Tip {
                    tip: Ok(self.rows.tip(session_id)),
                    messages: *self.messages.get(session_id).unwrap_or(&0),
                    now: 7,
                },
                AdmissionAction::Extend(record) => {
                    self.rows.admissions.entry(session_id.into()).or_default().push(record);
                    AdmissionReply::Extended(Ok(()))
                }
            };
            match self.turns.advance(admission, reply) {
                AdmissionStep::Next(next) => admission = next,
                AdmissionStep::Done(result) => break result?,
            }
        };
        match self.script {
            Script::Says(text) => {
                self.emit(&started, "1", Some(text), None);
                self.emit(&started, "2", None, Some(Status::Completed));
                *self.messages.entry(session_id.into()).or_insert(0) += 2;
                self.turns.settled(session_id);
            }
            Script::UntilStopped => self.running = Some(started.clone()),
        }
        Ok(started)
    }

    fn plan(&self, session_id: &str) -> Result<ResumePlan, TurnError> {
        match resume_candidate(Ok(self.rows.tip(session_id)))? {
            Err(parked) => Ok(parked),
            Ok(tip) => {
                let count = self.events.read_runtime_events(session_id, &tip.run_id).unwrap().len();
                resume_query(&tip, Ok(count as i64))
            }
        }
    }

    fn resume_turn(&mut self, session_id: &str, cursor: i64) -> Result<ResumeStart, TurnError> {
        let mut pending = Resume::new(session_id, cursor);
        loop {
            let reply = match pending.action() {
                ResumeAction::ReadTip => ResumeReply::Tip(Ok(self.rows.tip(session_id))),
                ResumeAction::ReadHighWater(run_id) => {
                    let events = self.events.read_runtime_events(session_id, &run_id);
                    ResumeReply::HighWater(events.map(|e| e.len() as i64))
                }
                ResumeAction::ReadEvents => ResumeReply::Events {
                    events: self.events.read_session_runtime_events(session_id),
                    messages: *self.messages.get(session_id).unwrap_or(&0),
                    now: 9,
                },
                ResumeAction::Claim(claim) => {
                    self.rows.claims.push(claim);
                    ResumeReply::Claimed(Ok(()))
                }
                ResumeAction::Begin(content) => {
                    ResumeReply::Begun(self.begin_turn(session_id, &content))
                }
            };
            match pending.advance(reply) {
                ResumeStep::Next(next) => pending = next,
                ResumeStep::Done(result) => return result,
            }
        }
    }

    fn run(&mut self, handler: Handler, input: &Json) -> Outcome {
        match handler {
            Handler::HostStatus => host::status_outcome(&self.ctx),
            Handler::Session(op) => {
                let mut step = start(op, input, 7);
                loop {
                    if let SessionStep::Reply(outcome) = step {
                        return outcome;
                    }
                    let reply = self.rows.perform(&step);
                    step = resume(step, reply);
                }
            }
            Handler::Turn(TurnOp::Start) => match start_input(input) {
                Err(o) => o,
                Ok(i) => start_outcome(self.begin_turn(&i.session_id, &i.content)),
            },
            Handler::Turn(TurnOp::Stop) => match session_input(input) {
                Err(o) => o,
                Ok(id) => {
                    let result = self.turns.stop_turn(&id);
                    if result.is_ok() {
                        if let Some(t) = self.running.take() {
                            self.emit(&t, "abort", None, Some(Status::Aborted));
                            self.turns.settled(&id);
                        }
                    }
                    stop_outcome(result)
                }
            },
            Handler::Turn(TurnOp::ResumeQuery) => match session_input(input) {
                Err(o) => o,
                Ok(id) => resume_query_outcome(self.plan(&id)),
            },
            Handler::Turn(TurnOp::ResumeStart) => match session_input(input) {
                Err(o) => o,
                Ok(id) => resume_start_outcome(self.resume_turn(&id, resume_cursor(input))),
            },
            Handler::Interaction(InteractionOp::Query) => match session_input(input) {
                Err(o) => o,
                Ok(id) => query_outcome(&id, self.hub.pending_for_session(&id)),
            },
            Handler::Interaction(InteractionOp::Answer) => match answer_input(input) {
                Err(o) => o,
                Ok(a) => {
                    let result = self.hub.answer(&a.interaction_id, a.answer);
                    if let Ok(row) = &result {
                        let session_id = row.session_id.clone();
                        self.publish_pending(&session_id);
                    }
                    answer_outcome(&result)
                }
            },
            Handler::Subscription(SubscriptionOp::Open) => match session_input(input) {
                Err(o) => o,
                Ok(id) => open_outcome(&self.continuity.open_subscription(&id)),
            },
            Handler::Subscription(SubscriptionOp::Close) => match close_input(input) {
                Err(o) => o,
                Ok(id) => {
                    let epoch = self.ctx.host_epoch.clone();
                    let notice = self.continuity.close_subscription(&id, &epoch);
                    let was_open = notice.is_some();
                    self.deliver(notice.into_iter().collect());
                    close_outcome(&id, was_open)
                }
            },
        }
    }

    /// Serves one frame of an accepted connection; gives the frames sent back.
    fn serve(&mut self, frame: Json) -> Vec<Json> {
        let req = match self.connection.receive(&self.ctx, Some(frame)) {
            ConnectionAction::Serve(req) => req,
            ConnectionAction::Ignore => return vec![],
            other => panic!("an accepted connection stays open, got {other:?}"),
        };
        let handler = match route(&self.dispatcher, &req) {
            Routed::Run(h) => *h,
            Routed::Answer(v) => return vec![v],
        };
        let outcome = self.run(handler, &req.input);
        let mut frames: Vec<Json> = self.pushes.drain(..).collect();
        frames.push(answer(&req, outcome));
        frames
    }
}

struct Client {
    host: Host,
    inner: HostClient,
}

fn connect(mut host: Host) -> (Client, String) {
    let first = over_the_wire(opening_frame().to_json());
    let reply = match host.connection.receive(&host.ctx, Some(first)) {
        ConnectionAction::Accept(reply) => reply,
        other => panic!("hello is accepted, got {other:?}"),
    };
    let epoch = handshake_reply(over_the_wire(reply)).expect("accepted");
    (Client { host, inner: HostClient::new() }, epoch)
}

impl Client {
    fn request(&mut self, operation: &str, input: &str) -> Result<Json, ClientError> {
        let req = self.inner.request(operation, json(input));
        for frame in self.host.serve(over_the_wire(req.to_json())) {
            if let Progress::Done(result) = self.inner.receive(&req, over_the_wire(frame)) {
                return result;
            }
        }
        panic!("no response to {operation}")
    }
}

fn code(result: Result<Json, ClientError>) -> OpErrorCode {
    match result {
        Err(ClientError::Operation { code, .. }) => code,
        other => panic!("expected an operation error, got {other:?}"),
    }
}

fn text(v: &Json, key: &str) -> String {
    v.text_at(key).unwrap_or_else(|| panic!("no text {key} in {v:?}"))
}

#[test]
fn host_status_round_trip() {
    let (mut client, host_epoch) = connect(Host::new("epoch-test", Script::Says("ok")));
    assert_eq!(host_epoch, "epoch-test");
    let status = client.request("host.status", "{}").expect("host.status");
    assert_eq!(text(&status, "hostEpoch"), "epoch-test");
    assert_eq!(text(&status, "state"), "ready");
    // An unregistered op resolves to operation_unavailable.
    let unknown = client.request("nope.op", "{}");
    assert_eq!(code(unknown), OpErrorCode::OperationUnavailable);
}

#[test]
fn session_lifecycle_and_archived_guard() {
    let (mut client, _) = connect(Host::new("epoch-sess", Script::Says("ok")));

    // create
    let rec = client
        .request("session.create", r#"{"sessionId": "s1", "name": "main", "labels": ["a"]}"#)
        .expect("create");
    assert_eq!(rec.get("revision"), Some(&Json::Uint(1)));
    assert_eq!(text(&rec, "name"), "main");
    assert_eq!(rec.get("labels"), Some(&json(r#"["a"]"#)));

    // catalog query
    let page = client.request("session.catalog.query", "{}").expect("catalog");
    assert_eq!(text(&page, "kind"), "page");
    match page.get("items") {
        Some(Json::Array(items)) => assert_eq!(items.len(), 1),
        other => panic!("unexpected {other:?}"),
    }

    // metadata update at the right revision commits (revision bumps to 2)
    let up = client
        .request(
            "session.metadata.update",
            r#"{"sessionId": "s1", "expectedRevision": 1, "patch": {"name": "renamed"}}"#,
        )
        .expect("metadata update");
    assert_eq!(text(&up, "kind"), "committed");
    let session = up.get("session").unwrap();
    assert_eq!(text(session, "name"), "renamed");
    assert_eq!(session.get("revision"), Some(&Json::Uint(2)));

    // a stale revision reports revision_conflict (result union, not an error)
    let stale = client
        .request(
            "session.metadata.update",
            r#"{"sessionId": "s1", "expectedRevision": 1, "patch": {"name": "x"}}"#,
        )
        .expect("stale update resolves");
    assert_eq!(text(&stale, "kind"), "revision_conflict");
    assert_eq!(stale.get("currentRevision"), Some(&Json::Uint(2)));

    // archive guards turns
    client
        .request("session.lifecycle.set", r#"{"sessionId": "s1", "lifecycle": "archived"}"#)
        .expect("archive");
    let archived_turn = client.request("turn.start", r#"{"sessionId": "s1", "content": "hi"}"#);
    assert_eq!(code(archived_turn), OpErrorCode::SessionArchived);

    // unarchive; a turn runs
    client
        .request("session.lifecycle.set", r#"{"sessionId": "s1", "lifecycle": "active"}"#)
        .expect("unarchive");
    let started = client
        .request("turn.start", r#"{"sessionId": "s1", "content": "hi"}"#)
        .expect("turn.start after unarchive");
    assert_eq!(text(&started, "turnId"), "turn-1");

    // read marker
    let rm = client
        .request(
            "session.read_marker.set",
            r#"{"sessionId": "s1", "readThroughMessageId": "m9"}"#,
        )
        .expect("read marker");
    assert_eq!(text(&rm, "kind"), "committed");
    assert_eq!(text(rm.get("session").unwrap(), "readMarker"), "m9");

    // remove; later turns report NotFound
    let removed = client.request("session.remove", r#"{"sessionId": "s1"}"#).expect("remove");
    assert_eq!(removed.get("removed"), Some(&Json::Bool(true)));
    let gone = client.request("turn.start", r#"{"sessionId": "s1", "content": "x"}"#);
    assert_eq!(code(gone), OpErrorCode::NotFound);
}

#[test]
fn session_updates_and_refusals() {
    let (mut client, _) = connect(Host::new("e", Script::Says("ok")));
    client.request("session.create", r#"{"sessionId": "s1"}"#).unwrap();
    let up = client
        .request(
            "session.configuration.update",
            r#"{"sessionId": "s1", "expectedRevision": 1, "configuration": {"b": 1, "a": 2}}"#,
        )
        .unwrap();
    assert_eq!(text(up.get("session").unwrap(), "configJson"), r#"{"a":2,"b":1}"#);
    let up = client
        .request(
            "session.cwd.relocate",
            r#"{"sessionId": "s1", "expectedRevision": 2, "cwd": "/w"}"#,
        )
        .unwrap();
    assert_eq!(text(up.get("session").unwrap(), "cwd"), "/w");

    let refused = |op: SessionOp, input: &str| match start(op, &json(input), 0) {
        SessionStep::Reply(Outcome::Failure { code, message }) => (code, message),
        other => panic!("expected a refusal, got {other:?}"),
    };
    for (op, input, message) in [
        (SessionOp::Create, "{}", "sessionId is required"),
        (SessionOp::MetadataUpdate, "{}", "sessionId is required"),
        (SessionOp::ConfigurationUpdate, "{}", "configuration object is required"),
        (
            SessionOp::ConfigurationUpdate,
            r#"{"configuration":[]}"#,
            "configuration object is required",
        ),
        (SessionOp::CwdRelocate, "{}", "cwd is required"),
        (SessionOp::ReadMarkerSet, "{}", "readThroughMessageId is required"),
        (SessionOp::LifecycleSet, "{}", "lifecycle must be 'archived' or 'active'"),
        (SessionOp::Remove, "{}", "sessionId is required"),
    ] {
        assert_eq!(refused(op, input), (OpErrorCode::InvalidRequest, message.to_string()));
    }
    // A rebase on a session that is not there, and a store that fails.
    let step = start(
        SessionOp::LifecycleSet,
        &json(r#"{"sessionId":"x","lifecycle":"active"}"#),
        0,
    );
    match resume(step, SessionReply::Found(Ok(None))) {
        SessionStep::Reply(Outcome::Failure { code, message }) => {
            assert_eq!(code, OpErrorCode::InvalidRequest);
            assert_eq!(message, "session 'x' does not exist");
        }
        other => panic!("unexpected {other:?}"),
    }
    match resume(SessionStep::List, SessionReply::Listed(Err("disk".into()))) {
        SessionStep::Reply(Outcome::Failure { code, message }) => {
            assert_eq!(code, OpErrorCode::PersistenceFailed);
            assert_eq!(message, "disk");
        }
        other => panic!("unexpected {other:?}"),
    }
    // Codes that the operation did not declare do not leave the host.
    assert_eq!(
        code(client.request("session.cwd.relocate", "{}")),
        OpErrorCode::InternalFailure
    );
    assert_eq!(code(client.request("session.create", "{}")), OpErrorCode::InvalidRequest);
}

#[test]
fn turn_start_streams_to_subscribed_client() {
    let (mut client, _) =
        connect(Host::new("epoch-turn", Script::Says("hello from the host")));
    let created = client
        .request("session.create", r#"{"sessionId": "s1", "name": "test"}"#)
        .expect("session.create");
    assert_eq!(created.get("revision"), Some(&Json::Uint(1)));

    let opened =
        client.request("subscription.open", r#"{"sessionId": "s1"}"#).expect("subscription.open");
    assert_eq!(opened.get("nextSequence"), Some(&Json::Uint(1)));
    assert_eq!(text(opened.get("snapshot").unwrap(), "sessionId"), "s1");

    let started = client
        .request("turn.start", r#"{"sessionId": "s1", "content": "hi"}"#)
        .expect("turn.start");
    assert_eq!(text(&started, "turnId"), "turn-1");
    assert_eq!(text(&started, "status"), "running");

    let frames = client.inner.take_streamed();
    assert_eq!(frames.len(), 2);
    assert_eq!(text(&frames[0], "kind"), "subscription.session_delta");
    assert_eq!(text(&frames[0], "text"), "hello from the host");
    assert_eq!(frames[0].get("sequence"), Some(&Json::Uint(1)));
    assert_eq!(text(&frames[1], "kind"), "subscription.session_projection");
    let root = frames[1].get("snapshot").unwrap().get("rootTurn").unwrap();
    assert_eq!(text(root, "status"), "completed");

    let id = text(&opened, "subscriptionId");
    let closed = client
        .request("subscription.close", &format!(r#"{{"subscriptionId": "{id}"}}"#))
        .unwrap();
    assert_eq!(closed.get("closed"), Some(&Json::Bool(true)));
    assert_eq!(text(&client.inner.take_streamed()[0], "reason"), "session_removed");
    assert_eq!(
        code(client.request("subscription.close", r#"{"subscriptionId": "zz"}"#)),
        OpErrorCode::NotFound
    );
}

#[test]
fn turn_stop_cancels_and_releases_the_session() {
    let (mut client, _) = connect(Host::new("epoch-stop", Script::UntilStopped));
    client.request("session.create", r#"{"sessionId": "s1"}"#).expect("session.create");
    client.request("subscription.open", r#"{"sessionId": "s1"}"#).expect("subscribe");
    let started = client
        .request("turn.start", r#"{"sessionId": "s1", "content": "long task"}"#)
        .expect("turn.start");
    assert_eq!(text(&started, "status"), "running");

    // One turn per session at a time.
    let busy = client.request("turn.start", r#"{"sessionId": "s1", "content": "more"}"#);
    assert_eq!(code(busy), OpErrorCode::SessionBusy);

    // Stop the turn; the subscribed client must observe the abort terminal.
    let stopped = client.request("turn.stop", r#"{"sessionId": "s1"}"#).expect("turn.stop");
    assert_eq!(text(&stopped, "status"), "request_stop");
    let saw_aborted = client.inner.take_streamed().iter().any(|frame| {
        frame
            .get("snapshot")
            .and_then(|s| s.get("rootTurn"))
            .and_then(|t| t.text_at("status"))
            .as_deref()
            == Some("aborted")
    });
    assert!(saw_aborted, "client must observe the aborted projection");

    // The session is released: a later turn.stop reports no active turn.
    let second = client.request("turn.stop", r#"{"sessionId": "s1"}"#);
    assert_eq!(code(second), OpErrorCode::NotFound);
}

#[test]
fn resume_query_and_continuation() {
    let (mut client, _) = connect(Host::new("epoch-resume", Script::Says("did the work")));
    client.request("session.create", r#"{"sessionId": "s1"}"#).expect("session.create");
    let started = client
        .request("turn.start", r#"{"sessionId": "s1", "content": "do the work"}"#)
        .expect("turn.start");
    assert_eq!(text(&started, "runId"), "run-1");

    let plan = client.request("turn.resume.query", r#"{"sessionId": "s1"}"#).expect("query");
    assert_eq!(text(&plan, "disposition"), "ready");
    assert_eq!(text(&plan, "sourceRunId"), "run-1");
    assert_eq!(text(&plan, "sourceTurnId"), "turn-1");
    assert_eq!(plan.get("sourceRuntimeEventHighWater"), Some(&Json::Uint(2)));

    // A drift-check: a stale high-water parks.
    let drifted = client
        .request(
            "turn.resume.start",
            r#"{"sessionId": "s1", "sourceRuntimeEventHighWater": 1001}"#,
        )
        .expect("drifted start resolves");
    assert_eq!(text(&drifted, "kind"), "parked");
    assert_eq!(text(&drifted, "reason"), "source_run_changed");

    // The correct high-water starts a continuation. Turn ids derive from the
    // message count: turn-1 completed with [user, assistant] (len 2), so the
    // continuation is turn-3/run-3.
    let resumed = client
        .request("turn.resume.start", r#"{"sessionId": "s1", "sourceRuntimeEventHighWater": 2}"#)
        .expect("resume.start");
    assert_eq!(text(&resumed, "kind"), "started", "got {resumed:?}");
    assert_eq!(text(&resumed, "turnId"), "turn-3");
    assert_eq!(text(&resumed, "runId"), "run-3");
    assert_eq!(text(&resumed, "sourceRunId"), "run-1");

    // The continuation carries the source's content and extends its chain.
    let chain = &client.host.rows.admissions["s1"];
    assert_eq!(chain.len(), 2);
    assert_eq!(chain[0].previous_root_turn_id, None);
    assert_eq!(chain[1].previous_root_turn_id.as_deref(), Some("turn-1"));
    assert_eq!(
        chain[1].identity_json,
        r#"{"content":"do the work","invocationId":"inv-3","runId":"run-3","turnId":"turn-3"}"#
    );
    let claim = &client.host.rows.claims[0];
    assert_eq!(claim.source_invocation_id, "inv-1");
    assert_eq!(claim.target_run_header_json, r#"{"runId":"run-3","turnId":"turn-3"}"#);
    assert_eq!(
        claim.boundary_json,
        r#"{"sourceHighWater":2,"sourceRunId":"run-1","targetTurnId":"turn-3"}"#
    );
}

#[test]
fn claim_digests_are_exact() {
    let mut host = Host::new("e", Script::Says("x"));
    host.rows.perform(&start(SessionOp::Create, &json(r#"{"sessionId":"s1"}"#), 0));
    host.begin_turn("s1", "c").unwrap();
    host.resume_turn("s1", 2).unwrap();
    let claim = &host.rows.claims[0];
    let event = |id: &str, rest: &str| {
        format!(
            r#"{{"sessionId":"s1","invocationId":"inv","runId":"run-1","turnId":"turn-1","id":"run-1-{id}","ts":0,"role":"model","author":"agent",{rest}}}"#
        )
    };
    let prefix = event("1", r#""content":{"kind":"text","text":"x"}"#)
        + &event("2", r#""status":"completed""#);
    let hex = |s: &str| -> String {
        sha2::Sha256::digest(s.as_bytes()).iter().map(|b| format!("{b:02x}")).collect()
    };
    assert_eq!(claim.source_prefix_digest, hex(&prefix));
    assert_eq!(claim.provider_replay_digest, hex(&prefix));
    assert_eq!(
        claim.boundary_digest,
        hex(&format!("{}:turn-3:run-3:2", hex(&prefix)))
    );
    assert_eq!(claim.protocol_version, 1);
}

#[test]
fn resume_query_parks_without_a_source_run() {
    let host = Host::new("e", Script::Says("x"));
    match host.plan("never-started").expect("query") {
        ResumePlan::Parked { reason } => assert_eq!(reason, "resume_candidate_missing"),
        other => panic!("expected parked, got {other:?}"),
    }
}

fn admission(poisoned: bool) -> RootAdmissionRecord {
    RootAdmissionRecord {
        session_id: "s".into(),
        turn_id: "turn-1".into(),
        run_id: "run-1".into(),
        previous_root_turn_id: None,
        identity_json: "not json".into(),
        admitted_at: 0,
        poisoned,
    }
}

#[test]
fn refused_admissions_release_the_session() {
    let mut turns = TurnCoordinator::new();
    turns.start_turn("s").unwrap();
    assert_eq!(turns.start_turn("s"), Err(TurnError::SessionBusy));
    assert!(turns.stop_turn("s").is_err(), "a turn that is not admitted cannot be stopped");
    assert_eq!(
        turns.session_found("s", Ok(None)),
        Err(TurnError::NotFound(
            "session 's' does not exist (session.create it first)".into()
        ))
    );
    turns.start_turn("s").expect("released");
    assert_eq!(
        turns.tip_read("s", 0, "c", Ok(Some(admission(true))), 0),
        Err(TurnError::SessionPoisoned)
    );
    turns.start_turn("s").expect("released");
    let record = turns.tip_read("s", 4, "c", Ok(Some(admission(false))), 5).unwrap();
    assert_eq!(record.turn_id, "turn-5");
    assert_eq!(record.previous_root_turn_id.as_deref(), Some("turn-1"));
    assert_eq!(record.admitted_at, 5);
    assert_eq!(
        turns.admitted(&record, Err("disk".into())),
        Err(TurnError::Storage("disk".into()))
    );
    turns.start_turn("s").expect("released");
    turns.admitted(&record, Ok(())).unwrap();
    assert_eq!(turns.stop_turn("s").unwrap().status, "request_stop");
    turns.settled("s");
    assert_eq!(
        turns.stop_turn("s"),
        Err(TurnError::NotFound("no active turn for session 's'".into()))
    );
    assert_eq!(turn_identity(0).invocation_id, "inv-1");
    assert_eq!(
        TurnError::SessionArchived("s".into()).message(),
        "session archived: s"
    );
}

#[test]
fn resume_decisions() {
    match resume_candidate(Ok(Some(admission(true)))).unwrap() {
        Err(ResumePlan::Parked { reason }) => assert_eq!(reason, "safety_check_failed"),
        other => panic!("unexpected {other:?}"),
    }
    assert_eq!(resume_candidate(Err("x".into())), Err(TurnError::Storage("x".into())));
    match resume_query(&admission(false), Ok(0)).unwrap() {
        ResumePlan::Parked { reason } => assert_eq!(reason, "source_run_unreadable"),
        other => panic!("unexpected {other:?}"),
    }
    assert_eq!(
        source_identity(Ok(None)),
        Err(TurnError::NotFound("admission tip vanished".into()))
    );
    // An unreadable identity has no content.
    let source = source_identity(Ok(Some(admission(false)))).unwrap();
    assert_eq!(source.content, "");
    match resume_start(Err(TurnError::SessionBusy), "run-1", 3).unwrap() {
        ResumeStart::Parked { reason } => assert_eq!(reason, "session_busy"),
        other => panic!("unexpected {other:?}"),
    }
    assert_eq!(
        resume_start(Err(TurnError::SessionPoisoned), "run-1", 3),
        Err(TurnError::SessionPoisoned)
    );
}

fn permission_request() -> PermissionRequest {
    PermissionRequest {
        tool_call_id: "tc-1".into(),
        tool_name: "bash".into(),
        category: ToolCategory::ShellUnsafe,
        reason: PermissionReason::ShellDangerous,
        summary: "cargo test".into(),
        remember_for_turn_allowed: true,
    }
}

fn prompt_place() -> InteractionContext {
    InteractionContext {
        session_id: "s1".into(),
        run_id: "run-1".into(),
        turn_id: "turn-1".into(),
    }
}

#[test]
fn permission_prompt_round_trips_over_the_wire() {
    let (mut client, _) = connect(Host::new("epoch-int", Script::Says("ok")));
    client.request("session.create", r#"{"sessionId": "s1"}"#).expect("session.create");
    client.request("subscription.open", r#"{"sessionId": "s1"}"#).expect("subscribe");

    // A blocked turn asks through the hub.
    client.host.hub.ask(&prompt_place(), &permission_request(), 11);
    client.host.publish_pending("s1");

    // The client sees the pending interaction.
    let q = client.request("interaction.query", r#"{"sessionId": "s1"}"#).expect("query");
    let pending = match q.get("pending") {
        Some(Json::Array(items)) => items.clone(),
        other => panic!("unexpected {other:?}"),
    };
    assert_eq!(text(&pending[0], "toolName"), "bash");
    assert_eq!(text(&pending[0], "summary"), "cargo test");
    assert_eq!(text(&pending[0], "category"), "shell_unsafe");
    let interaction_id = text(&pending[0], "interactionId");

    // The continuity snapshot carries it too.
    let frames = client.inner.take_streamed();
    assert_eq!(
        frames[0].get("snapshot").unwrap().get("interactionsPending"),
        Some(&Json::Array(pending.clone())),
        "snapshot must surface the pending interaction"
    );

    // Answer allow.
    let input = format!(
        r#"{{"interactionId": "{interaction_id}", "answer": {{"decision": "allow", "rememberForTurn": false}}}}"#
    );
    let resolved = client.request("interaction.answer", &input).expect("interaction.answer");
    assert_eq!(resolved.get("resolved"), Some(&Json::Bool(true)));

    // Pending is cleared, and a second answer comes too late.
    let cleared = client
        .request("interaction.query", r#"{"sessionId": "s1"}"#)
        .expect("interaction.query after answer");
    assert_eq!(cleared.get("pending"), Some(&Json::Array(vec![])));
    assert_eq!(
        code(client.request("interaction.answer", &input)),
        OpErrorCode::AlreadyResolved
    );
}

#[test]
fn answered_prompts_are_recorded() {
    let mut hub = InteractionHub::new();
    hub.ask_as("i1", &prompt_place(), &permission_request(), 11);
    let allow = PermissionAnswer { decision: PermissionDecision::Allow, remember_for_turn: true };
    let row = hub.answer("i1", allow).unwrap();
    assert_eq!(row.run_id, "run-1");
    assert_eq!(row.created_at, 11);
    assert_eq!(
        row.request_json,
        r#"{"tool_call_id":"tc-1","tool_name":"bash","category":"shell_unsafe","reason":"shell_dangerous","summary":"cargo test","remember_for_turn_allowed":true}"#
    );
    assert_eq!(row.outcome_json, r#"{"decision":"allow","remember_for_turn":true}"#);
    match hub.answer("i1", allow) {
        Err(e @ AnswerError::NotFound(_)) => {
            assert_eq!(e.message(), "no pending interaction 'i1'")
        }
        other => panic!("unexpected {other:?}"),
    }
    assert_eq!(unanswered().decision, PermissionDecision::Deny);
    for (input, message) in [
        ("{}", "interactionId is required"),
        (r#"{"interactionId":"i"}"#, "answer.decision must be 'allow' or 'deny'"),
        (
            r#"{"interactionId":"i","answer":{"decision":"maybe"}}"#,
            "answer.decision must be 'allow' or 'deny'",
        ),
    ] {
        match answer_input(&json(input)) {
            Err(Outcome::Failure { message: m, .. }) => assert_eq!(m, message),
            other => panic!("unexpected {other:?}"),
        }
    }
}

#[test]
fn handshakes_are_answered() {
    let ready = OpContext { host_epoch: "e".into(), lifecycle: LifecycleState::Ready };
    let draining = OpContext { host_epoch: "e".into(), lifecycle: LifecycleState::Draining };
    let hello = HelloFrame::new("c", HandshakeSurface::Tui, 0, 0, 10);
    match handshake_as("conn", hello.to_json(), &ready) {
        Some(HandshakeResult::Accepted(f)) => {
            assert_eq!(f.connection_id, "conn");
            assert_eq!(f.selected_protocol, 0);
            assert_eq!(f.compatibility_epoch, 10);
        }
        other => panic!("unexpected {other:?}"),
    }
    match handshake(hello.to_json(), &ready) {
        Some(HandshakeResult::Accepted(f)) => assert_eq!(f.connection_id.len(), 36),
        other => panic!("unexpected {other:?}"),
    }
    assert!(matches!(
        handshake_as("conn", hello.to_json(), &draining),
        Some(HandshakeResult::Draining(_))
    ));
    let newer = HelloFrame::new("c", HandshakeSurface::Tui, 3, 4, 10);
    match handshake_as("conn", newer.to_json(), &ready) {
        Some(HandshakeResult::Incompatible(f)) => {
            assert_eq!((f.protocol_min, f.protocol_max), (0, 0));
            let frame = decode_host_frame(over_the_wire(f.to_json()));
            assert!(matches!(frame, Ok(HostFrame::Incompatible(_))));
        }
        other => panic!("unexpected {other:?}"),
    }
    // The first frame must be hello.
    assert!(handshake(json(r#"{"requestId":"r","operation":"o","input":1}"#), &ready).is_none());
    assert!(handshake(Json::Null, &ready).is_none());
    // Behind the handshake a second hello is ignored.
    assert!(next_request(hello.to_json()).is_none());
}

#[test]
fn idle_kernel_self_shuts_down() {
    let mut kernel = HostKernel::new("epoch");
    assert!(!kernel.is_idle(), "a host that is starting is not idle");
    let reg = kernel.own(true, "/root", "/root/h.sock", 1, 2).unwrap();
    assert_eq!(reg.host_epoch, "epoch");
    assert_eq!(reg.state, LifecycleState::Ready);
    assert!(kernel.is_idle());
    kernel.drain();
    assert!(!kernel.is_idle());
    assert!(!kernel.still_draining(0), "nothing to wait for");
}

#[test]
fn serve_owned_loses_to_existing_owner() {
    let mut kernel = HostKernel::new("epoch");
    assert_eq!(kernel.own(false, "/root", "/s", 1, 2), Err(ServeOutcome::Loser));
}

#[test]
fn owned_host_serves_a_client() {
    let mut kernel = HostKernel::new("epoch");
    kernel.own(true, "/root", "/s", 1, 2).unwrap();
    let ctx = kernel.connected();
    assert_eq!(ctx.lifecycle, LifecycleState::Ready);
    assert!(!kernel.is_idle(), "host must stay up while a connection is open");
    kernel.drain();
    assert!(kernel.still_draining(DRAIN_GRACE_MS - 1));
    assert!(!kernel.still_draining(DRAIN_GRACE_MS));
    kernel.disconnected();
    assert!(!kernel.still_draining(0));
}

#[test]
fn responses_carry_outcomes() {
    let failure = Outcome::Failure { code: OpErrorCode::NotFound, message: "m".into() };
    let r = respond("r1", "x", failure);
    assert_eq!(r.error.unwrap().code, OpErrorCode::NotFound);
    // An operation outside the set may return any code.
    assert_eq!(
        enforce_declared(
            "custom.op",
            Outcome::Failure { code: OpErrorCode::OutcomeUnknown, message: "m".into() }
        ),
        Outcome::Failure { code: OpErrorCode::OutcomeUnknown, message: "m".into() }
    );
    let mut dispatcher: Dispatcher<u8> = Dispatcher::new();
    dispatcher.register("a", 1);
    dispatcher.register("a", 2);
    assert_eq!(dispatcher.dispatch("a"), Ok(&2));
    assert_eq!(
        dispatcher.dispatch("b"),
        Err(Outcome::Failure {
            code: OpErrorCode::OperationUnavailable,
            message: "unknown operation 'b'".into(),
        })
    );
}

#[test]
fn requests_follow_acceptance() {
    let ctx = OpContext { host_epoch: "e".into(), lifecycle: LifecycleState::Ready };
    let request = json(r#"{"requestId":"r1","operation":"host.status","input":{}}"#);
    // A request before the hello closes the connection for good.
    let mut early = Connection::new();
    assert!(matches!(early.receive(&ctx, Some(request)), ConnectionAction::Close));
    let hello = opening_frame().to_json();
    assert!(matches!(early.receive(&ctx, Some(hello)), ConnectionAction::Close));

    let mut conn = Connection::new();
    match conn.receive_as("c1", &ctx, Some(opening_frame().to_json())) {
        ConnectionAction::Accept(v) => assert_eq!(text(&v, "connectionId"), "c1"),
        other => panic!("hello is accepted, got {other:?}"),
    }
    assert!(matches!(conn.receive(&ctx, Some(json("[1]"))), ConnectionAction::Ignore));
    let req = HostClient::new().request("host.status", json("{}"));
    match conn.receive(&ctx, Some(req.to_json())) {
        ConnectionAction::Serve(got) => assert_eq!(got.operation, "host.status"),
        other => panic!("a request is served, got {other:?}"),
    }
    assert!(matches!(conn.receive(&ctx, None), ConnectionAction::Close));
    assert!(matches!(conn.receive(&ctx, Some(req.to_json())), ConnectionAction::Close));
}

#[test]
fn serving_a_root_runs_its_course() {
    let mut lost = ServeOwned::new(HostKernel::new("e"), "/r", "/r/s", 1, 2);
    assert!(matches!(
        lost.next(ServeEvent::Acquired(false)),
        ServeAction::Exit(ServeOutcome::Loser)
    ));

    // What does not fit changes nothing.
    assert!(matches!(
        lost.next(ServeEvent::Stopped),
        ServeAction::Exit(ServeOutcome::Loser)
    ));

    let mut s = ServeOwned::new(HostKernel::new("e"), "/r", "/r/s", 1, 2);
    assert!(matches!(s.current(), ServeAction::Acquire));
    assert!(matches!(s.next(ServeEvent::GracePassed), ServeAction::Acquire));
    match s.next(ServeEvent::Acquired(true)) {
        ServeAction::Publish(reg) => {
            assert_eq!(reg.host_epoch, "e");
            assert_eq!(reg.endpoint, "/r/s");
            assert_eq!(reg.state, LifecycleState::Ready);
        }
        other => panic!("the registration is published, got {other:?}"),
    }
    assert!(matches!(s.next(ServeEvent::Published), ServeAction::Accept));
    match s.next(ServeEvent::Connected) {
        ServeAction::Connection(ctx) => assert_eq!(ctx.host_epoch, "e"),
        other => panic!("the connection is served, got {other:?}"),
    }
    // A busy host stays when a grace passes.
    assert!(matches!(s.next(ServeEvent::GracePassed), ServeAction::Accept));
    assert!(matches!(s.next(ServeEvent::Stopped), ServeAction::Wait(DRAIN_POLL_MS)));
    assert!(matches!(s.next(ServeEvent::DrainTick(20)), ServeAction::Wait(DRAIN_POLL_MS)));
    assert!(matches!(s.next(ServeEvent::DrainTick(DRAIN_GRACE_MS)), ServeAction::Withdraw));
    assert!(matches!(s.next(ServeEvent::Withdrawn), ServeAction::Exit(ServeOutcome::Done)));

    // An idle host leaves at once.
    let mut idle = ServeOwned::new(HostKernel::new("e"), "/r", "/r/s", 1, 2);
    idle.next(ServeEvent::Acquired(true));
    idle.next(ServeEvent::Published);
    idle.next(ServeEvent::Connected);
    assert!(matches!(idle.next(ServeEvent::Disconnected), ServeAction::Accept));
    assert!(matches!(idle.next(ServeEvent::GracePassed), ServeAction::Withdraw));
}

#[test]
fn stray_store_replies_end_an_admission() {
    let mut turns = TurnCoordinator::new();
    let admission = turns.begin_turn("s", "hi").unwrap();
    assert!(matches!(turns.begin_turn("s", "hi"), Err(TurnError::SessionBusy)));
    match turns.advance(admission, AdmissionReply::Extended(Ok(()))) {
        AdmissionStep::Done(Err(TurnError::Storage(m))) => {
            assert_eq!(m, "unexpected store reply")
        }
        other => panic!("the turn is refused, got {other:?}"),
    }
    assert!(turns.begin_turn("s", "hi").is_ok(), "the session is free again");
}

#[test]
fn a_resume_needs_the_current_mark() {
    let at_mark = |cursor: i64, mark: i64| {
        let pending = match Resume::new("s", cursor).advance(ResumeReply::Tip(Ok(Some(
            admission(false),
        )))) {
            ResumeStep::Next(next) => next,
            other => panic!("the mark is read next, got {other:?}"),
        };
        pending.advance(ResumeReply::HighWater(Ok(mark)))
    };
    assert!(matches!(at_mark(3, 3), ResumeStep::Next(_)));
    assert!(matches!(at_mark(3, 4), ResumeStep::Done(Ok(ResumeStart::Parked { .. }))));
    assert!(matches!(at_mark(0, 0), ResumeStep::Done(Ok(ResumeStart::Parked { .. }))));
}

#[test]
fn a_source_prefix_does_not_depend_on_listed_order() {
    let event = |args: Json| RuntimeEvent {
        session_id: "s".into(),
        invocation_id: "i".into(),
        run_id: "r".into(),
        turn_id: "t".into(),
        branch: None,
        id: "e".into(),
        ts: 0,
        role: Role::Model,
        author: Author::Agent,
        origin: None,
        model_visibility: None,
        status: None,
        content: Some(Content::FunctionCall {
            id: "c".into(),
            name: "n".into(),
            args,
            provider_options: None,
            provider_executed: None,
        }),
        actions: None,
        refs: None,
        partial: None,
    };
    let member = |k: &str, n: u64| (k.to_string(), Json::Uint(n));
    let listed = event(Json::Object(vec![member("b", 1), member("a", 2), member("b", 3)]));
    let sorted = event(Json::Object(vec![member("a", 2), member("b", 3)]));
    let text = source_prefix(&vec![listed], "r");
    assert_eq!(text, source_prefix(&vec![sorted], "r"));
    assert!(text.ends_with(
        r#""content":{"kind":"function_call","id":"c","name":"n","args":{"a":2,"b":3}}}"#
    ));
}
