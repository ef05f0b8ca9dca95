//! Canonical events: round trips, canonical form, digests, session events and the
//! scripted backend.

use meepo::backend::{
    AgentBackend, BackendKind, BackendSendInput, BackendStopReason, ChatMessage, FakeBackend,
};
use meepo::json::{sort_value_keys, Json};
use meepo::recovery_fact::{
    ToolReconcileObservation, ToolReconcileResultFact, ToolRecoveryDecisionFact,
    ToolRecoveryDisposition, ToolRecoveryFactEnvelope,
};
use meepo::runtime_event::{
    canonical_tool_args_hash, operation_id, Author, Content, ProtocolMarker, Role, RuntimeEvent,
    RuntimeEventActions, RuntimeEventRefs, Status, ToolDispatch, ToolRecoveryMode,
    TOOL_BOUNDARY_PROTOCOL_V1,
};
use meepo::session_event::{SessionEvent, StopReason};
use sha2::Digest;

fn json(text: &str) -> Json {
    Json::parse(text).expect("valid json")
}

fn read_event(text: &str) -> Option<RuntimeEvent> {
    RuntimeEvent::from_json(&Json::parse(text).ok()?)
}

fn base_event() -> RuntimeEvent {
    RuntimeEvent {
        session_id: "s".into(),
        invocation_id: "inv".into(),
        run_id: "r".into(),
        turn_id: "t".into(),
        branch: None,
        id: "e1".into(),
        ts: 1,
        role: Role::System,
        author: Author::System,
        origin: None,
        model_visibility: None,
        status: None,
        content: None,
        actions: None,
        refs: None,
        partial: None,
    }
}

fn sample_user_event() -> RuntimeEvent {
    RuntimeEvent {
        session_id: "s1".into(),
        invocation_id: "inv1".into(),
        run_id: "r1".into(),
        turn_id: "t1".into(),
        branch: None,
        id: "e1".into(),
        ts: 1_700_000_000_000,
        role: Role::User,
        author: Author::User,
        origin: None,
        model_visibility: None,
        status: None,
        content: Some(Content::Text {
            text: "hello meepo".into(),
            provider_options: None,
            steering: None,
        }),
        actions: None,
        refs: None,
        partial: None,
    }
}

#[test]
fn typed_actions_and_refs_round_trip_canonical() {
    let mut event = base_event();
    event.actions = Some(RuntimeEventActions {
        tool_dispatch: Some(ToolDispatch {
            protocol: TOOL_BOUNDARY_PROTOCOL_V1.to_string(),
            operation_id: "op1".into(),
            provider_tool_call_id: "call_1".into(),
            tool_name: "bash".into(),
            canonical_args_hash: "sha256:abc".into(),
            recovery_mode: ToolRecoveryMode::ReplaySafe,
        }),
        runtime_protocol: Some(ProtocolMarker {
            tool_boundary: TOOL_BOUNDARY_PROTOCOL_V1.to_string(),
        }),
        end_invocation: Some(true),
        ..Default::default()
    });
    event.refs = Some(RuntimeEventRefs {
        operation_id: Some("op1".into()),
        tool_call_id: Some("call_1".into()),
        ..Default::default()
    });
    let text = event.to_canonical_json().unwrap();
    assert!(text.contains("\"toolDispatch\""));
    assert!(text.contains("\"operationId\""));
    assert!(text.contains("\"runtimeProtocol\""));
    assert!(text.contains("\"endInvocation\""));
    assert!(text.contains("\"t1_after_preflight_v1\""));
    assert!(text.contains("\"replay_safe\""));
    let back = read_event(&text).unwrap();
    let actions = back.actions.expect("actions round-trip");
    assert_eq!(actions.tool_dispatch.unwrap().operation_id, "op1");
    assert_eq!(back.refs.unwrap().operation_id, Some("op1".into()));
}

#[test]
fn none_actions_refs_omitted() {
    let event = base_event();
    let text = event.to_canonical_json().unwrap();
    assert!(!text.contains("actions"));
    assert!(!text.contains("refs"));
}

#[test]
fn roundtrips_through_canonical_json() {
    let ev = sample_user_event();
    let text = ev.to_canonical_json().unwrap();
    let back = read_event(&text).unwrap();
    assert_eq!(ev, back);
}

#[test]
fn field_names_are_camelcase() {
    let text = sample_user_event().to_canonical_json().unwrap();
    assert!(text.contains(r#""sessionId""#), "expected camelCase: {text}");
    assert!(text.contains(r#""invocationId""#));
    assert!(text.contains(r#""runId""#));
    assert!(text.contains(r#""turnId""#));
    assert!(!text.contains(r#""session_id""#));
    assert!(!text.contains(r#""run_id""#));
}

#[test]
fn object_keys_are_alphabetical() {
    let text = sample_user_event().to_canonical_json().unwrap();
    let keys: Vec<String> = match json(&text) {
        Json::Object(members) => members.into_iter().map(|m| m.0).collect(),
        other => panic!("expected an object, got {other:?}"),
    };
    let mut sorted = keys.clone();
    sorted.sort_unstable();
    assert_eq!(keys, sorted, "keys must be alphabetical: {text}");
    let first = text.find("\"author\"").unwrap();
    let last = text.find("\"turnId\"").unwrap();
    assert!(first < last);
}

#[test]
fn absent_optional_fields_are_omitted() {
    let text = sample_user_event().to_canonical_json().unwrap();
    assert!(!text.contains(r#""branch""#));
    assert!(!text.contains(r#""status""#));
    assert!(!text.contains(r#""actions""#));
    assert!(!text.contains(r#""origin""#));
}

#[test]
fn content_function_call_uses_snake_case_kind() {
    let ev = RuntimeEvent {
        role: Role::Model,
        author: Author::Agent,
        content: Some(Content::FunctionCall {
            id: "call_1".into(),
            name: "read_file".into(),
            args: json(r#"{"path": "/tmp/x"}"#),
            provider_options: None,
            provider_executed: None,
        }),
        ..sample_user_event()
    };
    let text = ev.to_canonical_json().unwrap();
    assert!(text.contains(r#""kind":"function_call""#), "{text}");
    assert!(!text.contains(r#""providerExecuted""#));
}

#[test]
fn terminal_statuses_detected() {
    assert!(Status::Completed.is_terminal());
    assert!(Status::Failed.is_terminal());
    assert!(Status::Aborted.is_terminal());
    assert!(!Status::Streaming.is_terminal());
}

#[test]
fn canonical_text_is_exact() {
    assert_eq!(
        sample_user_event().to_canonical_json().unwrap(),
        concat_lines(&[
            r#"{"author":"user","content":{"kind":"text","text":"hello meepo"},"id":"e1","#,
            r#""invocationId":"inv1","role":"user","runId":"r1","sessionId":"s1","#,
            r#""ts":1700000000000,"turnId":"t1"}"#,
        ])
    );
}

fn concat_lines(parts: &[&str]) -> String {
    parts.concat()
}

#[test]
fn recovery_facts_round_trip_canonical() {
    let mut event = base_event();
    event.actions = Some(RuntimeEventActions {
        tool_recovery: Some(ToolRecoveryFactEnvelope::RecoveryDecision {
            version: 1,
            payload: ToolRecoveryDecisionFact {
                protocol: "tool_recovery_v1".into(),
                operation_id: "op1".into(),
                disposition: ToolRecoveryDisposition::Parked,
                reason_code: "reconcile_diverged".into(),
                evidence_event_ids: vec!["a".into(), "b".into()],
                outcome_event_id: None,
            },
        }),
        ..Default::default()
    });
    let text = event.to_canonical_json().unwrap();
    assert!(text.contains(r#""kind":"maka.tool.recovery_decision""#));
    assert_eq!(read_event(&text).unwrap(), event);

    let fact = ToolRecoveryFactEnvelope::ReconcileResult {
        version: 1,
        payload: ToolReconcileResultFact {
            protocol: "p".into(),
            operation_id: "op2".into(),
            observation: ToolReconcileObservation::MatchesPriorState,
            observation_schema: "s".into(),
            observation_digest: "d".into(),
        },
    };
    assert_eq!(fact.kind_str(), "maka.tool.reconcile_result");
    assert_eq!(fact.operation_id(), "op2");
    assert_eq!(ToolRecoveryFactEnvelope::from_json(&fact.to_json()), Some(fact));
}

#[test]
fn explicit_null_reads_back_as_absent() {
    let mut event = sample_user_event();
    event.content = Some(Content::Text {
        text: "x".into(),
        provider_options: Some(Json::Null),
        steering: None,
    });
    let text = event.to_canonical_json().unwrap();
    assert!(text.contains("\"providerOptions\":null"));
    let back = read_event(&text).unwrap();
    assert_ne!(back, event);
    assert_eq!(read_event("{}"), None);
    assert_eq!(read_event("not json"), None);
}

#[test]
fn args_hash_is_exact_and_ignores_key_order() {
    let a = json(r#"{"b":1,"a":{"y":[1,2],"x":null}}"#);
    let b = Json::Object(vec![
        ("b".into(), Json::Uint(1)),
        (
            "a".into(),
            Json::Object(vec![
                ("y".into(), Json::Array(vec![Json::Uint(1), Json::Uint(2)])),
                ("x".into(), Json::Null),
            ]),
        ),
    ]);
    assert_eq!(canonical_tool_args_hash("bash", &a), canonical_tool_args_hash("bash", &b));
    assert_ne!(canonical_tool_args_hash("bash", &a), canonical_tool_args_hash("sh", &a));
    // SHA-256 of `bash`, a unit separator and `{}`.
    let digest = sha2::Sha256::digest(b"bash\x1f{}");
    let hex: String = digest.iter().map(|b| format!("{b:02x}")).collect();
    assert_eq!(canonical_tool_args_hash("bash", &json("{}")), format!("sha256:{hex}"));
}

#[test]
fn operation_ids_are_deterministic() {
    assert_eq!(operation_id("inv", "call"), operation_id("inv", "call"));
    assert_ne!(operation_id("inv", "call"), operation_id("inv", "call2"));
    let digest = sha2::Sha256::digest(b"inv\x1fcall");
    let hex: String = digest.iter().map(|b| format!("{b:02x}")).collect();
    assert_eq!(operation_id("inv", "call"), format!("op_{hex}"));
    assert_eq!(operation_id("inv", "call").len(), 67);
}

#[test]
fn sorting_orders_keys_at_every_level() {
    let v = Json::Object(vec![
        ("b".into(), Json::Array(vec![Json::Object(vec![
            ("z".into(), Json::Bool(true)),
            ("a".into(), Json::Null),
        ])])),
        ("a".into(), Json::Int(-3)),
    ]);
    let once = sort_value_keys(&v);
    assert_eq!(once.to_text(), r#"{"a":-3,"b":[{"a":null,"z":true}]}"#);
    assert_eq!(sort_value_keys(&once), once);
}

fn input() -> BackendSendInput {
    BackendSendInput {
        turn_id: "t1".into(),
        messages: vec![ChatMessage::User { content: "hi".into() }],
        run_id: Some("r1".into()),
        invocation_id: Some("inv1".into()),
        max_steps: None,
        system_prompt: None,
        tools: vec![],
    }
}

fn delta(id: &str, ts: i64, text: &str) -> SessionEvent {
    SessionEvent::TextDelta {
        id: id.into(),
        turn_id: "t1".into(),
        ts,
        message_id: "m".into(),
        start_offset: None,
        text: text.into(),
    }
}

#[test]
fn fake_backend_replays_script_in_order() {
    let script = vec![
        delta("1", 0, "hel"),
        delta("2", 1, "lo"),
        SessionEvent::Complete {
            id: "3".into(),
            turn_id: "t1".into(),
            ts: 2,
            stop_reason: StopReason::EndTurn,
        },
    ];
    let mut backend = FakeBackend::new("s1", script.clone());
    assert_eq!(backend.kind(), BackendKind::Fake);
    assert_eq!(backend.session_id(), "s1");
    let got = backend.send(&input());
    assert_eq!(got.len(), 3);
    assert_eq!(got, script);
    assert!(matches!(got.last(), Some(SessionEvent::Complete { .. })));
    assert!(backend.send(&input()).is_empty(), "past the script a step is empty");
}

#[test]
fn stepped_backend_replays_one_step_per_send() {
    let mut backend =
        FakeBackend::new_stepped("s1", vec![vec![delta("1", 0, "a")], vec![delta("2", 1, "b")]]);
    assert_eq!(backend.send(&input()), vec![delta("1", 0, "a")]);
    assert_eq!(backend.send(&input()), vec![delta("2", 1, "b")]);
    assert!(backend.send(&input()).is_empty());
    assert_eq!(
        backend.compact_history(&input().messages).unwrap(),
        "[fake compact of 1 messages]"
    );
}

#[test]
fn session_event_text_delta_roundtrips_with_snake_case_type() {
    let ev = delta("1", 0, "hi");
    let text = ev.to_json().to_text();
    assert!(text.contains(r#""type":"text_delta""#), "{text}");
    assert!(text.contains(r#""messageId""#), "camelCase field: {text}");
    assert!(!text.contains(r#""startOffset""#), "absent Option omitted: {text}");
    let back = SessionEvent::from_json(&json(&text)).unwrap();
    assert_eq!(ev, back);
}

#[test]
fn stop_and_dispose_are_ok_on_fake() {
    let mut backend = FakeBackend::new("s1", vec![]);
    backend.stop(BackendStopReason::UserStop, None).unwrap();
    backend.dispose().unwrap();
}

#[test]
fn records_are_read_from_lists_of_their_members() {
    // Members at the end that have a default may be missing, others not.
    let event = read_event(r#"["s","inv","r","t",null,"e1",1,"system",{"system":null}]"#);
    assert_eq!(event, Some(base_event()));
    assert_eq!(read_event(r#"["s","inv","r","t",null,"e1",1,"system"]"#), None);
    assert_eq!(read_event(r#"["s","inv","r","t",null,"e1",1,"system",{"system":1}]"#), None);
    assert_eq!(read_event(r#"["s","inv","r","t",null,"e1",1,"system",{"system":{}}]"#), None);
    // A tagged value starts with its tag.
    let content = Content::from_json(&json(r#"["text","hi",null,true]"#));
    assert_eq!(
        content,
        Some(Content::Text {
            text: "hi".into(),
            provider_options: None,
            steering: Some(true)
        })
    );
    assert_eq!(Content::from_json(&json(r#"["text"]"#)), None);
    assert_eq!(Content::from_json(&json(r#"["nope","hi"]"#)), None);
    assert_eq!(Content::from_json(&json("[]")), None);
    assert_eq!(RuntimeEventRefs::from_json(&json("[]")), Some(RuntimeEventRefs::default()));
    // Inside a tagged value an empty object does for null.
    for reason in [r#""end_turn""#, r#"{"end_turn":null}"#, r#"{"end_turn":{}}"#] {
        let text = format!(r#"{{"type":"complete","id":"i","turnId":"t","ts":1,"stopReason":{reason}}}"#);
        match SessionEvent::from_json(&json(&text)) {
            Some(SessionEvent::Complete { stop_reason, .. }) => {
                assert_eq!(stop_reason, StopReason::EndTurn)
            }
            other => panic!("unexpected {other:?}"),
        }
    }
    assert_eq!(StopReason::from_json(&json(r#"{"end_turn":null}"#)), Some(StopReason::EndTurn));
    assert_eq!(StopReason::from_json(&json(r#"{"end_turn":{}}"#)), None);
    assert_eq!(StopReason::from_json(&json(r#"{"end_turn":null,"error":null}"#)), None);
    let fact = json(
        r#"["maka.tool.reconcile_result",1,["p","op2",{"matches_prior_state":{}},"s","d"]]"#,
    );
    match ToolRecoveryFactEnvelope::from_json(&fact) {
        Some(ToolRecoveryFactEnvelope::ReconcileResult { version, payload }) => {
            assert_eq!(version, 1);
            assert_eq!(payload.operation_id, "op2");
            assert_eq!(payload.observation, ToolReconcileObservation::MatchesPriorState);
        }
        other => panic!("unexpected {other:?}"),
    }
}
