//! Subscriptions: snapshots, frames, sequences and slow consumers.

use meepo::continuity::coordinator::{SessionContinuityCoordinator, SUB_QUEUE};
use meepo::continuity::frames::{ClosedReason, DeltaKind, SubscriptionFrame};
use meepo::continuity::snapshot::{SessionContinuitySnapshot, MAX_SNAPSHOT_BYTES};
use meepo::json::Json;
use meepo::runtime_event::{Author, Content, Role, RuntimeEvent, Status};
use tokio::sync::mpsc;

fn ev(text: &str, status: Option<Status>) -> RuntimeEvent {
    RuntimeEvent {
        session_id: "s1".into(),
        invocation_id: "inv".into(),
        run_id: "run-1".into(),
        turn_id: "turn-1".into(),
        branch: None,
        id: "e1".into(),
        ts: 0,
        role: Role::Model,
        author: Author::Agent,
        origin: None,
        model_visibility: None,
        status,
        content: Some(Content::Text {
            text: text.into(),
            provider_options: None,
            steering: None,
        }),
        actions: None,
        refs: None,
        partial: None,
    }
}

#[test]
fn open_returns_snapshot_and_next_sequence() {
    let mut coord = SessionContinuityCoordinator::new();
    let opened = coord.open_subscription("s1");
    assert_eq!(opened.next_sequence, 1);
    assert_eq!(opened.snapshot.session_id, "s1");
    let other = coord.open_subscription("s1");
    assert_ne!(opened.subscription_id, other.subscription_id);
}

#[test]
fn text_event_emits_delta_with_sequence() {
    let mut coord = SessionContinuityCoordinator::new();
    let opened = coord.open_subscription("s1");
    let sid = opened.subscription_id.clone();
    let mut out = coord.accept_runtime_event("s1", "run-1", "epoch-1", &ev("hi", None));
    assert_eq!(out.len(), 1);
    let delivery = out.remove(0);
    assert_eq!(delivery.subscription_id, sid);
    match delivery.frame {
        SubscriptionFrame::SessionDelta { subscription_id, sequence, text, delta_kind, .. } => {
            assert_eq!(subscription_id, sid);
            assert_eq!(sequence, 1);
            assert_eq!(text, "hi");
            assert_eq!(delta_kind, DeltaKind::Text);
        }
        other => panic!("expected delta, got {}", other.kind()),
    }
}

#[test]
fn terminal_event_emits_projection_with_bumped_revision() {
    let mut coord = SessionContinuityCoordinator::new();
    coord.open_subscription("s1");
    let mut out =
        coord.accept_runtime_event("s1", "run-1", "epoch-1", &ev("done", Some(Status::Completed)));
    match out.remove(0).frame {
        SubscriptionFrame::SessionProjection { snapshot, sequence, .. } => {
            assert_eq!(sequence, 1);
            assert_eq!(snapshot.get("projectionRevision"), Some(&Json::Uint(1)));
            let root = snapshot.get("rootTurn").unwrap();
            assert_eq!(root.text_at("status").as_deref(), Some("completed"));
        }
        other => panic!("expected projection, got {}", other.kind()),
    }
}

#[test]
fn slow_consumer_is_dropped() {
    let mut coord = SessionContinuityCoordinator::new();
    let opened = coord.open_subscription("s1");
    let (tx, mut rx) = mpsc::channel::<SubscriptionFrame>(SUB_QUEUE);
    let mut sender = Some(tx);
    // Flood far past the queue cap without draining.
    for i in 0..60 {
        let event = ev(&format!("t{i}"), None);
        for delivery in coord.accept_runtime_event("s1", "run-1", "epoch", &event) {
            let full = match &sender {
                Some(tx) => tx.try_send(delivery.frame).is_err(),
                None => panic!("a dropped subscriber gets no frames"),
            };
            if full {
                let notice = coord.drop_slow_consumer(&delivery.subscription_id, "epoch").unwrap();
                match &notice.frame {
                    SubscriptionFrame::Closed { reason, .. } => {
                        assert_eq!(*reason, ClosedReason::SlowConsumer)
                    }
                    other => panic!("expected closed, got {}", other.kind()),
                }
                if let Some(tx) = sender.take() {
                    assert!(tx.try_send(notice.frame).is_err(), "the queue is full");
                }
            }
        }
    }
    assert!(sender.is_none(), "the subscriber was dropped");
    let mut count = 0;
    while rx.try_recv().is_ok() {
        count += 1;
    }
    assert!(count <= SUB_QUEUE, "buffered {count}, cap {SUB_QUEUE}");
    assert_eq!(count, SUB_QUEUE);
    assert!(coord.drop_slow_consumer(&opened.subscription_id, "epoch").is_none());
}

#[test]
fn explicit_close_ends_the_stream() {
    let mut coord = SessionContinuityCoordinator::new();
    let opened = coord.open_subscription("s1");
    let sid = opened.subscription_id.clone();
    let notice = coord.close_subscription(&sid, "epoch").unwrap();
    match notice.frame {
        SubscriptionFrame::Closed { reason, .. } => {
            assert_eq!(reason, ClosedReason::SessionRemoved);
        }
        other => panic!("expected closed, got {}", other.kind()),
    }
    assert!(coord.accept_runtime_event("s1", "r", "epoch", &ev("x", None)).is_empty());
    assert!(coord.close_subscription(&sid, "epoch").is_none());
}

#[test]
fn sequences_are_counted_per_subscriber() {
    let mut coord = SessionContinuityCoordinator::new();
    let a = coord.open_as("a", "s1");
    assert_eq!(a.subscription_id, "a");
    coord.accept_runtime_event("s1", "r", "e", &ev("one", None));
    coord.open_as("b", "s1");
    let out = coord.accept_runtime_event("s1", "r", "e", &ev("two", None));
    let seen: Vec<(String, u64)> = out
        .iter()
        .map(|d| match &d.frame {
            SubscriptionFrame::SessionDelta { sequence, .. } => {
                (d.subscription_id.clone(), *sequence)
            }
            other => panic!("expected delta, got {}", other.kind()),
        })
        .collect();
    assert_eq!(seen, vec![("a".to_string(), 2), ("b".to_string(), 1)]);
    // An event that is neither a transition nor text is not broadcast.
    let mut quiet = ev("x", None);
    quiet.role = Role::User;
    assert!(coord.accept_runtime_event("s1", "r", "e", &quiet).is_empty());
    // Nor is one of a session that nobody follows.
    assert!(coord.accept_runtime_event("s2", "r", "e", &ev("x", None)).is_empty());
    assert!(coord.can_accept("s1"));
}

#[test]
fn pending_interactions_reach_later_subscribers() {
    let mut coord = SessionContinuityCoordinator::new();
    let prompt = Json::parse(r#"{"interactionId":"i1"}"#).unwrap();
    assert!(coord.set_pending_interactions("s1", "e", vec![prompt.clone()]).is_empty());
    let opened = coord.open_subscription("s1");
    assert_eq!(opened.snapshot.interactions_pending, vec![prompt]);
    assert_eq!(opened.snapshot.projection_revision, 1);
    let out = coord.set_pending_interactions("s1", "e", vec![]);
    assert_eq!(out.len(), 1);
    match &out[0].frame {
        SubscriptionFrame::SessionProjection { snapshot, .. } => {
            assert_eq!(snapshot.get("projectionRevision"), Some(&Json::Uint(2)));
            assert_eq!(snapshot.get("interactionsPending"), Some(&Json::Array(vec![])));
        }
        other => panic!("expected projection, got {}", other.kind()),
    }
}

#[test]
fn frames_have_exact_wire_form() {
    let closed = SubscriptionFrame::closed("e", "s", ClosedReason::SlowConsumer);
    assert_eq!(
        closed.to_json().to_text(),
        r#"{"hostEpoch":"e","kind":"subscription.closed","reason":"slow_consumer","subscriptionId":"s"}"#
    );
    assert_eq!(closed.kind(), "subscription.closed");
}

#[test]
fn fresh_snapshot_round_trips_under_cap() {
    let snap = SessionContinuitySnapshot::fresh("s1");
    assert_eq!(snap.schema_version, 3);
    assert!(snap.projection_revision == 0);
    let v = snap.to_json();
    assert_eq!(v.get("schemaVersion"), Some(&Json::Uint(3)));
    assert_eq!(v.text_at("sessionId").as_deref(), Some("s1"));
    assert!(!snap.over_cap());
    assert_eq!(SessionContinuitySnapshot::from_json(&v), Some(snap));
}

#[test]
fn snapshot_serializes_with_camel_case_and_kind_free() {
    let snap = SessionContinuitySnapshot::fresh("s1");
    let s = snap.to_json().to_text();
    assert!(s.contains("\"schemaVersion\""));
    assert!(s.contains("\"projectionRevision\""));
    assert!(!s.contains("\"kind\""));
    // unknown field rejected
    let tampered = s.replace("\"status\"", "\"stray\":1,\"status\"");
    let v = Json::parse(&tampered).unwrap();
    assert!(SessionContinuitySnapshot::from_json(&v).is_none());
}

#[test]
fn snapshot_size_is_that_of_its_text() {
    let mut snap = SessionContinuitySnapshot::fresh("s1");
    assert_eq!(
        snap.to_declared_json().to_ordered_text(),
        concat_all(&[
            r#"{"schemaVersion":3,"sessionId":"s1","projectionRevision":0,"status":"ready","#,
            r#""rootTurn":null,"queue":{"queueRevision":0,"steering":[],"followup":[]},"#,
            r#""interactionsPending":[]}"#,
        ])
    );
    let base = snap.encoded_bytes();
    assert_eq!(base, snap.to_json().to_text().len());
    snap.status = "x".repeat(MAX_SNAPSHOT_BYTES - base + "ready".len());
    assert_eq!(snap.encoded_bytes(), MAX_SNAPSHOT_BYTES);
    assert!(!snap.over_cap());
    snap.status.push('x');
    assert!(snap.over_cap());
}

fn concat_all(parts: &[&str]) -> String {
    parts.concat()
}
