//! The tool ledger scanner and the in-memory event store.

use meepo::json::Json;
use meepo::recovery_fact::{
    ToolReconcileObservation, ToolReconcileResultFact, ToolRecoveryDecisionFact,
    ToolRecoveryDisposition, ToolRecoveryFactEnvelope,
};
use meepo::runtime_event::{
    Author, Content, Role, RuntimeEvent, RuntimeEventActions, Status, ToolDispatch,
    ToolRecoveryMode, TOOL_BOUNDARY_PROTOCOL_V1,
};
use meepo::store::{Durability, InMemoryRuntimeEventStore, RuntimeEventStore};
use meepo::tool_ledger_scanner::{
    classify_lane, scan_tool_ledger, ToolLedgerIssueCode, ToolLedgerLane, ToolLedgerScanResult,
};

fn ev(id: &str, role: Role, content: Option<Content>) -> RuntimeEvent {
    RuntimeEvent {
        session_id: "s".into(),
        invocation_id: "inv".into(),
        run_id: "r".into(),
        turn_id: "t".into(),
        branch: None,
        id: id.into(),
        ts: 0,
        role,
        author: Author::Agent,
        origin: None,
        model_visibility: None,
        status: None,
        content,
        actions: None,
        refs: None,
        partial: None,
    }
}

fn call(id: &str, call_id: &str, name: &str) -> RuntimeEvent {
    ev(
        id,
        Role::Model,
        Some(Content::FunctionCall {
            id: call_id.into(),
            name: name.into(),
            args: Json::Object(vec![]),
            provider_options: None,
            provider_executed: None,
        }),
    )
}

fn resp(id: &str, call_id: &str, name: &str) -> RuntimeEvent {
    ev(
        id,
        Role::Tool,
        Some(Content::FunctionResponse {
            id: call_id.into(),
            name: name.into(),
            result: Json::Text("ok".into()),
            is_error: Some(false),
            provider_executed: None,
            provider_output: None,
        }),
    )
}

fn dispatch(id: &str, call_id: &str, name: &str, op_id: &str) -> RuntimeEvent {
    let mut e = ev(id, Role::System, None);
    e.author = Author::System;
    e.actions = Some(RuntimeEventActions {
        tool_dispatch: Some(ToolDispatch {
            protocol: TOOL_BOUNDARY_PROTOCOL_V1.to_string(),
            operation_id: op_id.into(),
            provider_tool_call_id: call_id.into(),
            tool_name: name.into(),
            canonical_args_hash: "sha256:x".into(),
            recovery_mode: ToolRecoveryMode::ReplaySafe,
        }),
        ..Default::default()
    });
    e
}

fn reconcile(id: &str, op_id: &str, obs: ToolReconcileObservation) -> RuntimeEvent {
    let mut e = ev(id, Role::System, None);
    e.author = Author::System;
    e.actions = Some(RuntimeEventActions {
        tool_recovery: Some(ToolRecoveryFactEnvelope::ReconcileResult {
            version: 1,
            payload: ToolReconcileResultFact {
                protocol: "tool_reconcile_v1".into(),
                operation_id: op_id.into(),
                observation: obs,
                observation_schema: "state_identity_v1".into(),
                observation_digest: "sha256:x".into(),
            },
        }),
        ..Default::default()
    });
    e
}

fn decision(id: &str, op_id: &str, disp: ToolRecoveryDisposition, reason: &str) -> RuntimeEvent {
    let mut e = ev(id, Role::System, None);
    e.author = Author::System;
    e.actions = Some(RuntimeEventActions {
        tool_recovery: Some(ToolRecoveryFactEnvelope::RecoveryDecision {
            version: 1,
            payload: ToolRecoveryDecisionFact {
                protocol: "tool_recovery_v1".into(),
                operation_id: op_id.into(),
                disposition: disp,
                reason_code: reason.into(),
                evidence_event_ids: vec!["c1".into(), "d1".into(), "rec".into()],
                outcome_event_id: None,
            },
        }),
        ..Default::default()
    });
    e
}

fn has(s: &ToolLedgerScanResult, code: ToolLedgerIssueCode) -> bool {
    s.issues.iter().any(|i| i.code == code)
}

#[test]
fn dispatch_binds_to_call() {
    let s = scan_tool_ledger(&[
        call("c1", "tc1", "read"),
        dispatch("d1", "tc1", "read", "op1"),
        resp("r1", "tc1", "read"),
    ]);
    assert_eq!(s.operations.len(), 1);
    assert!(s.issues.is_empty());
    assert!(s.operations[0].dispatch_event.is_some());
    assert!(!s.has_corruption);
    assert_eq!(s.operations[0].operation_id.as_deref(), Some("op1"));
    assert_eq!(s.operations[0].tool_name.as_deref(), Some("read"));
}

#[test]
fn orphan_dispatch_flagged() {
    let s = scan_tool_ledger(&[dispatch("d1", "ghost", "read", "op1")]);
    assert!(has(&s, ToolLedgerIssueCode::OrphanDispatch));
}

#[test]
fn duplicate_dispatch_flagged() {
    let s = scan_tool_ledger(&[
        call("c1", "tc1", "read"),
        dispatch("d1", "tc1", "read", "op1"),
        dispatch("d2", "tc1", "read", "op1"),
    ]);
    assert!(has(&s, ToolLedgerIssueCode::DuplicateDispatch));
}

#[test]
fn recovery_facts_bind_to_operation() {
    let s = scan_tool_ledger(&[
        call("c1", "tc1", "bash"),
        dispatch("d1", "tc1", "bash", "op1"),
        reconcile("rec", "op1", ToolReconcileObservation::Diverged),
        decision("dec", "op1", ToolRecoveryDisposition::Parked, "reconcile_diverged"),
    ]);
    assert_eq!(s.operations.len(), 1);
    assert!(s.issues.is_empty(), "bound recovery facts are not issues");
    assert_eq!(s.operations[0].reconcile_events.len(), 1);
    assert_eq!(s.operations[0].decision_events.len(), 1);
}

#[test]
fn recovery_fact_without_operation_flagged() {
    let s = scan_tool_ledger(&[decision(
        "dec",
        "orphan_op",
        ToolRecoveryDisposition::Parked,
        "reconcile_diverged",
    )]);
    assert!(has(&s, ToolLedgerIssueCode::RecoveryFactWithoutOperation));
}

#[test]
fn orphan_response_flagged() {
    let s = scan_tool_ledger(&[resp("r1", "ghost", "read")]);
    assert!(has(&s, ToolLedgerIssueCode::OrphanResponse));
}

#[test]
fn every_other_issue_is_flagged() {
    let s = scan_tool_ledger(&[call("c1", "tc1", "read"), call("c1", "tc2", "read")]);
    assert!(has(&s, ToolLedgerIssueCode::DuplicateEventId));
    assert_eq!(s.operations.len(), 1);
    assert_eq!(s.issues[0].event_id, "c1");
    assert_eq!(s.issues[0].tool_call_id, None);

    let s = scan_tool_ledger(&[call("c1", "tc1", "read"), call("c2", "tc1", "read")]);
    assert!(has(&s, ToolLedgerIssueCode::DuplicateCall));
    assert_eq!(s.operations[0].issues.len(), 1);

    let s = scan_tool_ledger(&[
        call("c1", "tc1", "read"),
        resp("r1", "tc1", "read"),
        resp("r2", "tc1", "read"),
    ]);
    assert!(has(&s, ToolLedgerIssueCode::DuplicateResponse));
    assert_eq!(s.operations[0].response_event.as_ref().unwrap().id, "r1");

    // A response under another name, and a call behind its dispatch.
    let s = scan_tool_ledger(&[call("c1", "tc1", "read"), resp("r1", "tc1", "write")]);
    assert!(has(&s, ToolLedgerIssueCode::IdentityConflict));
    assert!(s.operations[0].response_event.is_some());
    let s = scan_tool_ledger(&[dispatch("d1", "tc1", "read", "op1"), call("c1", "tc1", "read")]);
    assert!(has(&s, ToolLedgerIssueCode::IdentityConflict));
    assert!(s.operations[0].call_event.is_some());
    assert!(s.has_corruption);
}

#[test]
fn calls_of_different_invocations_stay_apart() {
    let mut other = call("c2", "tc1", "read");
    other.invocation_id = "inv2".into();
    let s = scan_tool_ledger(&[call("c1", "tc1", "read"), other]);
    assert_eq!(s.operations.len(), 2);
    assert!(!s.has_corruption);
}

#[test]
fn lanes_are_classified() {
    assert_eq!(classify_lane(&call("a", "b", "c")), ToolLedgerLane::FunctionCall);
    assert_eq!(classify_lane(&resp("a", "b", "c")), ToolLedgerLane::FunctionResponse);
    assert_eq!(classify_lane(&dispatch("a", "b", "c", "d")), ToolLedgerLane::ToolDispatch);
    assert_eq!(
        classify_lane(&reconcile("a", "b", ToolReconcileObservation::Unreadable)),
        ToolLedgerLane::ReconcileResult
    );
    assert_eq!(
        classify_lane(&decision("a", "b", ToolRecoveryDisposition::Completed, "x")),
        ToolLedgerLane::RecoveryDecision
    );
    assert_eq!(classify_lane(&ev("a", Role::System, None)), ToolLedgerLane::Ordinary);
    let mut wrong_role = call("a", "b", "c");
    wrong_role.role = Role::User;
    assert_eq!(classify_lane(&wrong_role), ToolLedgerLane::Ordinary);
}

fn text_event(session: &str, run: &str, id: &str, status: Option<Status>, text: &str) -> RuntimeEvent {
    let mut e = ev(
        id,
        Role::Model,
        Some(Content::Text { text: text.into(), provider_options: None, steering: None }),
    );
    e.session_id = session.into();
    e.run_id = run.into();
    e.status = status;
    e
}

#[test]
fn append_and_read_back_in_commit_order() {
    let mut store = InMemoryRuntimeEventStore::new();
    store.append_runtime_event("s", "r", text_event("s", "r", "e1", None, "a"), false).unwrap();
    store.append_runtime_event("s", "r", text_event("s", "r", "e2", None, "b"), false).unwrap();
    let got = store.read_runtime_events("s", "r").unwrap();
    assert_eq!(got.len(), 2);
    assert_eq!(got[0].id, "e1");
    assert_eq!(got[1].id, "e2");
}

#[test]
fn terminal_event_is_idempotent() {
    let mut store = InMemoryRuntimeEventStore::new();
    store
        .ensure_terminal_runtime_event_durable(
            "s",
            "r",
            text_event("s", "r", "e1", Some(Status::Completed), "done"),
        )
        .unwrap();
    // A second terminal for the same run must be a no-op (terminal invariant).
    store
        .ensure_terminal_runtime_event_durable(
            "s",
            "r",
            text_event("s", "r", "e2", Some(Status::Completed), "done2"),
        )
        .unwrap();
    let got = store.read_runtime_events("s", "r").unwrap();
    assert_eq!(got.len(), 1, "second terminal must be dropped");
    assert_eq!(got[0].id, "e1");
}

#[test]
fn session_read_spans_runs_ordered_by_event_id() {
    let mut store = InMemoryRuntimeEventStore::new();
    // Insert out of id order across two runs.
    store.append_runtime_event("s", "r1", text_event("s", "r1", "e2", None, "b"), false).unwrap();
    store.append_runtime_event("s", "r2", text_event("s", "r2", "e1", None, "a"), false).unwrap();
    store.append_runtime_event("z", "r1", text_event("z", "r1", "e0", None, "z"), false).unwrap();
    let got = store.read_session_runtime_events("s").unwrap();
    let ids: Vec<&str> = got.iter().map(|e| e.id.as_str()).collect();
    assert_eq!(ids, vec!["e1", "e2"]);
}

#[test]
fn reports_configured_durability() {
    let store = InMemoryRuntimeEventStore::with_durability(Durability::Canonical);
    assert_eq!(store.durability(), Durability::Canonical);
    assert_eq!(InMemoryRuntimeEventStore::new().durability(), Durability::BestEffort);
}

#[test]
fn missing_run_reads_as_empty() {
    let store = InMemoryRuntimeEventStore::new();
    let got = store.read_runtime_events("nope", "nope").unwrap();
    assert!(got.is_empty());
}

#[test]
fn an_ended_run_accepts_no_second_terminal_event() {
    let mut store = InMemoryRuntimeEventStore::new();
    let done = text_event("s", "r", "e1", Some(Status::Completed), "done");
    store.append_runtime_event("s", "r", done, true).unwrap();
    let failed = text_event("s", "r", "e2", Some(Status::Failed), "late");
    store.append_runtime_event("s", "r", failed, true).unwrap();
    let closed = text_event("s", "r", "e3", Some(Status::Aborted), "later");
    store.ensure_terminal_runtime_event_durable("s", "r", closed).unwrap();
    // Facts that end nothing are still accepted, and other runs may end.
    store.append_runtime_event("s", "r", text_event("s", "r", "e4", None, "x"), true).unwrap();
    let other = text_event("s", "q", "e5", Some(Status::Failed), "other");
    store.append_runtime_event("s", "q", other, true).unwrap();
    let ids = |run: &str| -> Vec<String> {
        store.read_runtime_events("s", run).unwrap().into_iter().map(|e| e.id).collect()
    };
    assert_eq!(ids("r"), ["e1", "e4"]);
    assert_eq!(ids("q"), ["e5"]);
}

#[test]
fn an_appended_event_is_in_the_session_read() {
    let mut store = InMemoryRuntimeEventStore::new();
    for (run, id) in [("r1", "e3"), ("r2", "e1"), ("r1", "e2"), ("r3", "e0")] {
        store.append_runtime_event("s", run, text_event("s", run, id, None, "x"), true).unwrap();
    }
    store.append_runtime_event("t", "r1", text_event("t", "r1", "e9", None, "x"), true).unwrap();
    let ids = |session: &str| -> Vec<String> {
        let read = store.read_session_runtime_events(session).unwrap();
        read.into_iter().map(|e| e.id).collect()
    };
    assert_eq!(ids("s"), ["e0", "e1", "e2", "e3"]);
    assert_eq!(ids("t"), ["e9"]);
}

#[test]
fn scan_results_are_copied_and_start_empty() {
    let s = scan_tool_ledger(&[call("e1", "c1", "n"), call("e2", "c1", "n")]);
    let copy = s.clone();
    assert_eq!(copy.issues, s.issues);
    assert_eq!(copy.operations.len(), 1);
    assert_eq!(copy.operations[0].call_event, s.operations[0].call_event);
    assert!(copy.has_corruption);
    let none = ToolLedgerScanResult::default();
    assert!(none.operations.is_empty() && none.issues.is_empty() && !none.has_corruption);
}
