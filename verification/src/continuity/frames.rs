//! Subscription frame vocabulary. Each frame carries `kind`, `hostEpoch`,
//! `subscriptionId` and, but for the closing one, a monotonic `sequence`.

use crate::json::Field;
use crate::json::Json;
use crate::json::JsonView;
use crate::json::ObjectBuilder;
use crate::json::present;
use crate::text::str_eq;
use crate::schema::read_variant;
use crate::schema::variant_name;
use crate::schema::lemma_lookup;
use crate::schema::lemma_step_ascends;
use crate::text::text_lt;
use crate::text::lt_at;
use vstd::prelude::*;

verus! {

/// Kind of an incremental assistant delta.
#[derive(Debug, Clone, Copy, PartialEq, Eq, Structural)]
pub enum DeltaKind {
    Text,
    Thinking,
}

impl DeltaKind {
    /// The name of the variant on the wire.
    pub open spec fn wire(self) -> Seq<char> {
        match self {
            DeltaKind::Text => "text"@,
            DeltaKind::Thinking => "thinking"@,
        }
    }

    /// The names on the wire: each variant is written, and read back, as its own.
    pub proof fn law_wire_names()
        ensures
            DeltaKind::Text.wire() == "text"@,
            DeltaKind::of_wire("text"@) == Some(DeltaKind::Text),
            DeltaKind::Thinking.wire() == "thinking"@,
            DeltaKind::of_wire("thinking"@) == Some(DeltaKind::Thinking),
    {
        DeltaKind::Text.lemma_wire();
        DeltaKind::Thinking.lemma_wire();
    }

    pub open spec fn json(self) -> JsonView {
        JsonView::Text(self.wire())
    }

    /// The variant that `s` names on the wire.
    pub open spec fn of_wire(s: Seq<char>) -> Option<DeltaKind> {
        if s == "text"@ {
            Some(DeltaKind::Text)
        } else if s == "thinking"@ {
            Some(DeltaKind::Thinking)
        } else {
            None
        }
    }

    pub open spec fn of_json(v: JsonView) -> Option<DeltaKind> {
        match variant_name(v) {
            Some(s) => DeltaKind::of_wire(s),
            None => None,
        }
    }

    /// The name of the variant on the wire.
    pub fn as_str(self) -> (r: &'static str)
        ensures
            r@ == self.wire(),
    {
        match self {
            DeltaKind::Text => "text",
            DeltaKind::Thinking => "thinking",
        }
    }

    pub fn to_json(self) -> (r: Json)
        ensures
            r@ == self.json(),
    {
        Json::Text(self.as_str().to_owned())
    }

    /// The variant that `s` names on the wire.
    pub fn parse(s: &str) -> (r: Option<DeltaKind>)
        ensures
            r == DeltaKind::of_wire(s@),
    {
        if str_eq(s, "text") {
            Some(DeltaKind::Text)
        } else if str_eq(s, "thinking") {
            Some(DeltaKind::Thinking)
        } else {
            None
        }
    }

    pub fn from_json(v: &Json) -> (r: Option<DeltaKind>)
        ensures
            r == DeltaKind::of_json(v@),
    {
        match read_variant(v) {
            Some(s) => DeltaKind::parse(s.as_str()),
            None => None,
        }
    }

    /// Every variant is read back from its wire name.
    pub proof fn lemma_wire(self)
        ensures
            DeltaKind::of_wire(self.wire()) == Some(self),
            DeltaKind::of_json(self.json()) == Some(self),
    {
        reveal_strlit("text");
        reveal_strlit("thinking");
        assert("text"@.len() == 4);
        assert("thinking"@.len() == 8);
    }
}

/// Why a subscription was closed by the host.
#[derive(Debug, Clone, Copy, PartialEq, Eq, Structural)]
pub enum ClosedReason {
    SlowConsumer,
    SessionRemoved,
}

impl ClosedReason {
    /// The name of the variant on the wire.
    pub open spec fn wire(self) -> Seq<char> {
        match self {
            ClosedReason::SlowConsumer => "slow_consumer"@,
            ClosedReason::SessionRemoved => "session_removed"@,
        }
    }

    /// The names on the wire: each variant is written, and read back, as its own.
    pub proof fn law_wire_names()
        ensures
            ClosedReason::SlowConsumer.wire() == "slow_consumer"@,
            ClosedReason::of_wire("slow_consumer"@) == Some(ClosedReason::SlowConsumer),
            ClosedReason::SessionRemoved.wire() == "session_removed"@,
            ClosedReason::of_wire("session_removed"@) == Some(ClosedReason::SessionRemoved),
    {
        ClosedReason::SlowConsumer.lemma_wire();
        ClosedReason::SessionRemoved.lemma_wire();
    }

    pub open spec fn json(self) -> JsonView {
        JsonView::Text(self.wire())
    }

    /// The variant that `s` names on the wire.
    pub open spec fn of_wire(s: Seq<char>) -> Option<ClosedReason> {
        if s == "slow_consumer"@ {
            Some(ClosedReason::SlowConsumer)
        } else if s == "session_removed"@ {
            Some(ClosedReason::SessionRemoved)
        } else {
            None
        }
    }

    pub open spec fn of_json(v: JsonView) -> Option<ClosedReason> {
        match variant_name(v) {
            Some(s) => ClosedReason::of_wire(s),
            None => None,
        }
    }

    /// The name of the variant on the wire.
    pub fn as_str(self) -> (r: &'static str)
        ensures
            r@ == self.wire(),
    {
        match self {
            ClosedReason::SlowConsumer => "slow_consumer",
            ClosedReason::SessionRemoved => "session_removed",
        }
    }

    pub fn to_json(self) -> (r: Json)
        ensures
            r@ == self.json(),
    {
        Json::Text(self.as_str().to_owned())
    }

    /// The variant that `s` names on the wire.
    pub fn parse(s: &str) -> (r: Option<ClosedReason>)
        ensures
            r == ClosedReason::of_wire(s@),
    {
        if str_eq(s, "slow_consumer") {
            Some(ClosedReason::SlowConsumer)
        } else if str_eq(s, "session_removed") {
            Some(ClosedReason::SessionRemoved)
        } else {
            None
        }
    }

    pub fn from_json(v: &Json) -> (r: Option<ClosedReason>)
        ensures
            r == ClosedReason::of_json(v@),
    {
        match read_variant(v) {
            Some(s) => ClosedReason::parse(s.as_str()),
            None => None,
        }
    }

    /// Every variant is read back from its wire name.
    pub proof fn lemma_wire(self)
        ensures
            ClosedReason::of_wire(self.wire()) == Some(self),
            ClosedReason::of_json(self.json()) == Some(self),
    {
        reveal_strlit("slow_consumer");
        reveal_strlit("session_removed");
        assert("slow_consumer"@.len() == 13);
        assert("session_removed"@.len() == 15);
    }
}

/// One frame pushed on an open subscription, discriminated by `kind`.
#[derive(Debug, PartialEq)]
pub enum SubscriptionFrame {
    SessionProjection {
        host_epoch: String,
        subscription_id: String,
        sequence: u64,
        snapshot: Json,
    },
    SessionDelta {
        host_epoch: String,
        subscription_id: String,
        sequence: u64,
        turn_id: String,
        run_id: String,
        message_id: String,
        delta_kind: DeltaKind,
        start_offset: u64,
        text: String,
    },
    SessionEvent {
        host_epoch: String,
        subscription_id: String,
        sequence: u64,
        /// Tool-lifecycle payload.
        payload: Json,
    },
    SessionDomainChanged {
        host_epoch: String,
        subscription_id: String,
        sequence: u64,
    },
    Closed {
        host_epoch: String,
        subscription_id: String,
        reason: ClosedReason,
    },
}

/// What a [`SubscriptionFrame`] says.
pub enum SubscriptionFrameView {
    SessionProjection {
        host_epoch: Seq<char>,
        subscription_id: Seq<char>,
        sequence: u64,
        snapshot: JsonView,
    },
    SessionDelta {
        host_epoch: Seq<char>,
        subscription_id: Seq<char>,
        sequence: u64,
        turn_id: Seq<char>,
        run_id: Seq<char>,
        message_id: Seq<char>,
        delta_kind: DeltaKind,
        start_offset: u64,
        text: Seq<char>,
    },
    SessionEvent {
        host_epoch: Seq<char>,
        subscription_id: Seq<char>,
        sequence: u64,
        payload: JsonView,
    },
    SessionDomainChanged {
        host_epoch: Seq<char>,
        subscription_id: Seq<char>,
        sequence: u64,
    },
    Closed {
        host_epoch: Seq<char>,
        subscription_id: Seq<char>,
        reason: ClosedReason,
    },
}

impl View for SubscriptionFrame {
    type V = SubscriptionFrameView;

    open spec fn view(&self) -> SubscriptionFrameView {
        match *self {
            SubscriptionFrame::SessionProjection { host_epoch, subscription_id, sequence, snapshot } => SubscriptionFrameView::SessionProjection {
                host_epoch: host_epoch@,
                subscription_id: subscription_id@,
                sequence: sequence,
                snapshot: snapshot@,
            },
            SubscriptionFrame::SessionDelta { host_epoch, subscription_id, sequence, turn_id, run_id, message_id, delta_kind, start_offset, text } => SubscriptionFrameView::SessionDelta {
                host_epoch: host_epoch@,
                subscription_id: subscription_id@,
                sequence: sequence,
                turn_id: turn_id@,
                run_id: run_id@,
                message_id: message_id@,
                delta_kind: delta_kind,
                start_offset: start_offset,
                text: text@,
            },
            SubscriptionFrame::SessionEvent { host_epoch, subscription_id, sequence, payload } => SubscriptionFrameView::SessionEvent {
                host_epoch: host_epoch@,
                subscription_id: subscription_id@,
                sequence: sequence,
                payload: payload@,
            },
            SubscriptionFrame::SessionDomainChanged { host_epoch, subscription_id, sequence } => SubscriptionFrameView::SessionDomainChanged {
                host_epoch: host_epoch@,
                subscription_id: subscription_id@,
                sequence: sequence,
            },
            SubscriptionFrame::Closed { host_epoch, subscription_id, reason } => SubscriptionFrameView::Closed {
                host_epoch: host_epoch@,
                subscription_id: subscription_id@,
                reason: reason,
            },
        }
    }
}

impl Clone for SubscriptionFrame {
    fn clone(&self) -> (r: Self)
        ensures
            r@ == self@,
    {
        match self {
            SubscriptionFrame::SessionProjection { host_epoch, subscription_id, sequence, snapshot } => SubscriptionFrame::SessionProjection {
                host_epoch: host_epoch.clone(),
                subscription_id: subscription_id.clone(),
                sequence: *sequence,
                snapshot: snapshot.clone(),
            },
            SubscriptionFrame::SessionDelta { host_epoch, subscription_id, sequence, turn_id, run_id, message_id, delta_kind, start_offset, text } => SubscriptionFrame::SessionDelta {
                host_epoch: host_epoch.clone(),
                subscription_id: subscription_id.clone(),
                sequence: *sequence,
                turn_id: turn_id.clone(),
                run_id: run_id.clone(),
                message_id: message_id.clone(),
                delta_kind: *delta_kind,
                start_offset: *start_offset,
                text: text.clone(),
            },
            SubscriptionFrame::SessionEvent { host_epoch, subscription_id, sequence, payload } => SubscriptionFrame::SessionEvent {
                host_epoch: host_epoch.clone(),
                subscription_id: subscription_id.clone(),
                sequence: *sequence,
                payload: payload.clone(),
            },
            SubscriptionFrame::SessionDomainChanged { host_epoch, subscription_id, sequence } => SubscriptionFrame::SessionDomainChanged {
                host_epoch: host_epoch.clone(),
                subscription_id: subscription_id.clone(),
                sequence: *sequence,
            },
            SubscriptionFrame::Closed { host_epoch, subscription_id, reason } => SubscriptionFrame::Closed {
                host_epoch: host_epoch.clone(),
                subscription_id: subscription_id.clone(),
                reason: *reason,
            },
        }
    }
}

impl SubscriptionFrameView {
    /// The members of the JSON object, in key order.
    pub open spec fn fields(self) -> Seq<Field> {
        match self {
            SubscriptionFrameView::SessionProjection { host_epoch, subscription_id, sequence, snapshot } => Seq::empty()
                .push(("hostEpoch"@, Some(JsonView::Text(host_epoch))))
                .push(("kind"@, Some(JsonView::Text("subscription.session_projection"@))))
                .push(("sequence"@, Some(JsonView::Number(sequence as int))))
                .push(("snapshot"@, Some(snapshot)))
                .push(("subscriptionId"@, Some(JsonView::Text(subscription_id)))),
            SubscriptionFrameView::SessionDelta { host_epoch, subscription_id, sequence, turn_id, run_id, message_id, delta_kind, start_offset, text } => Seq::empty()
                .push(("deltaKind"@, Some(delta_kind.json())))
                .push(("hostEpoch"@, Some(JsonView::Text(host_epoch))))
                .push(("kind"@, Some(JsonView::Text("subscription.session_delta"@))))
                .push(("messageId"@, Some(JsonView::Text(message_id))))
                .push(("runId"@, Some(JsonView::Text(run_id))))
                .push(("sequence"@, Some(JsonView::Number(sequence as int))))
                .push(("startOffset"@, Some(JsonView::Number(start_offset as int))))
                .push(("subscriptionId"@, Some(JsonView::Text(subscription_id))))
                .push(("text"@, Some(JsonView::Text(text))))
                .push(("turnId"@, Some(JsonView::Text(turn_id)))),
            SubscriptionFrameView::SessionEvent { host_epoch, subscription_id, sequence, payload } => Seq::empty()
                .push(("hostEpoch"@, Some(JsonView::Text(host_epoch))))
                .push(("kind"@, Some(JsonView::Text("subscription.session_event"@))))
                .push(("payload"@, Some(payload)))
                .push(("sequence"@, Some(JsonView::Number(sequence as int))))
                .push(("subscriptionId"@, Some(JsonView::Text(subscription_id)))),
            SubscriptionFrameView::SessionDomainChanged { host_epoch, subscription_id, sequence } => Seq::empty()
                .push(("hostEpoch"@, Some(JsonView::Text(host_epoch))))
                .push(("kind"@, Some(JsonView::Text("subscription.session_domain_changed"@))))
                .push(("sequence"@, Some(JsonView::Number(sequence as int))))
                .push(("subscriptionId"@, Some(JsonView::Text(subscription_id)))),
            SubscriptionFrameView::Closed { host_epoch, subscription_id, reason } => Seq::empty()
                .push(("hostEpoch"@, Some(JsonView::Text(host_epoch))))
                .push(("kind"@, Some(JsonView::Text("subscription.closed"@))))
                .push(("reason"@, Some(reason.json())))
                .push(("subscriptionId"@, Some(JsonView::Text(subscription_id)))),
        }
    }

    pub open spec fn json(self) -> JsonView {
        JsonView::Object(present(self.fields()))
    }
}

impl SubscriptionFrame {
    /// The JSON object for this value.
    pub fn to_json(&self) -> (r: Json)
        ensures
            r@ == self@.json(),
    {
        let mut b = ObjectBuilder::new();
        match self {
            SubscriptionFrame::SessionProjection { host_epoch, subscription_id, sequence, snapshot } => {
                b.put_text("hostEpoch", host_epoch.as_str());
                b.put_text("kind", "subscription.session_projection");
                b.put("sequence", Json::Uint(*sequence));
                b.put("snapshot", snapshot.clone());
                b.put_text("subscriptionId", subscription_id.as_str());
            },
            SubscriptionFrame::SessionDelta { host_epoch, subscription_id, sequence, turn_id, run_id, message_id, delta_kind, start_offset, text } => {
                b.put("deltaKind", delta_kind.to_json());
                b.put_text("hostEpoch", host_epoch.as_str());
                b.put_text("kind", "subscription.session_delta");
                b.put_text("messageId", message_id.as_str());
                b.put_text("runId", run_id.as_str());
                b.put("sequence", Json::Uint(*sequence));
                b.put("startOffset", Json::Uint(*start_offset));
                b.put_text("subscriptionId", subscription_id.as_str());
                b.put_text("text", text.as_str());
                b.put_text("turnId", turn_id.as_str());
            },
            SubscriptionFrame::SessionEvent { host_epoch, subscription_id, sequence, payload } => {
                b.put_text("hostEpoch", host_epoch.as_str());
                b.put_text("kind", "subscription.session_event");
                b.put("payload", payload.clone());
                b.put("sequence", Json::Uint(*sequence));
                b.put_text("subscriptionId", subscription_id.as_str());
            },
            SubscriptionFrame::SessionDomainChanged { host_epoch, subscription_id, sequence } => {
                b.put_text("hostEpoch", host_epoch.as_str());
                b.put_text("kind", "subscription.session_domain_changed");
                b.put("sequence", Json::Uint(*sequence));
                b.put_text("subscriptionId", subscription_id.as_str());
            },
            SubscriptionFrame::Closed { host_epoch, subscription_id, reason } => {
                b.put_text("hostEpoch", host_epoch.as_str());
                b.put_text("kind", "subscription.closed");
                b.put("reason", reason.to_json());
                b.put_text("subscriptionId", subscription_id.as_str());
            },
        }
        assert(b.fields() == self@.fields());
        b.build()
    }
}

impl SubscriptionFrameView {
    /// The frame kind.
    pub open spec fn kind(self) -> Seq<char> {
        match self {
            SubscriptionFrameView::SessionProjection { .. } => "subscription.session_projection"@,
            SubscriptionFrameView::SessionDelta { .. } => "subscription.session_delta"@,
            SubscriptionFrameView::SessionEvent { .. } => "subscription.session_event"@,
            SubscriptionFrameView::SessionDomainChanged { .. } => "subscription.session_domain_changed"@,
            SubscriptionFrameView::Closed { .. } => "subscription.closed"@,
        }
    }

    /// The sequence number of the frame; a closing frame has none.
    pub open spec fn sequence(self) -> Option<u64> {
        match self {
            SubscriptionFrameView::SessionProjection { sequence, .. } => Some(sequence),
            SubscriptionFrameView::SessionDelta { sequence, .. } => Some(sequence),
            SubscriptionFrameView::SessionEvent { sequence, .. } => Some(sequence),
            SubscriptionFrameView::SessionDomainChanged { sequence, .. } => Some(sequence),
            SubscriptionFrameView::Closed { .. } => None,
        }
    }
}

impl SubscriptionFrame {
    /// The frame kind.
    pub fn kind(&self) -> (r: &'static str)
        ensures
            r@ == self@.kind(),
    {
        match self {
            SubscriptionFrame::SessionProjection { .. } => "subscription.session_projection",
            SubscriptionFrame::SessionDelta { .. } => "subscription.session_delta",
            SubscriptionFrame::SessionEvent { .. } => "subscription.session_event",
            SubscriptionFrame::SessionDomainChanged { .. } => "subscription.session_domain_changed",
            SubscriptionFrame::Closed { .. } => "subscription.closed",
        }
    }

    pub fn closed(host_epoch: &str, subscription_id: &str, reason: ClosedReason) -> (r: Self)
        ensures
            r@ == (SubscriptionFrameView::Closed {
                host_epoch: host_epoch@,
                subscription_id: subscription_id@,
                reason,
            }),
    {
        SubscriptionFrame::Closed {
            host_epoch: host_epoch.to_owned(),
            subscription_id: subscription_id.to_owned(),
            reason,
        }
    }
}

impl SubscriptionFrameView {
    /// The members of the JSON object, each under its own name.
    pub proof fn law_members(self)
        ensures
            match self {
                SubscriptionFrameView::SessionProjection { host_epoch, subscription_id, sequence, snapshot } => {
                    &&& self.json().get("hostEpoch"@) == (Some(JsonView::Text(host_epoch)))
                    &&& self.json().get("kind"@) == (Some(JsonView::Text("subscription.session_projection"@)))
                    &&& self.json().get("sequence"@) == (Some(JsonView::Number(sequence as int)))
                    &&& self.json().get("snapshot"@) == (Some(snapshot))
                    &&& self.json().get("subscriptionId"@) == (Some(JsonView::Text(subscription_id)))
                },
                SubscriptionFrameView::SessionDelta { host_epoch, subscription_id, sequence, turn_id, run_id, message_id, delta_kind, start_offset, text } => {
                    &&& self.json().get("deltaKind"@) == (Some(delta_kind.json()))
                    &&& self.json().get("hostEpoch"@) == (Some(JsonView::Text(host_epoch)))
                    &&& self.json().get("kind"@) == (Some(JsonView::Text("subscription.session_delta"@)))
                    &&& self.json().get("messageId"@) == (Some(JsonView::Text(message_id)))
                    &&& self.json().get("runId"@) == (Some(JsonView::Text(run_id)))
                    &&& self.json().get("sequence"@) == (Some(JsonView::Number(sequence as int)))
                    &&& self.json().get("startOffset"@) == (Some(JsonView::Number(start_offset as int)))
                    &&& self.json().get("subscriptionId"@) == (Some(JsonView::Text(subscription_id)))
                    &&& self.json().get("text"@) == (Some(JsonView::Text(text)))
                    &&& self.json().get("turnId"@) == (Some(JsonView::Text(turn_id)))
                },
                SubscriptionFrameView::SessionEvent { host_epoch, subscription_id, sequence, payload } => {
                    &&& self.json().get("hostEpoch"@) == (Some(JsonView::Text(host_epoch)))
                    &&& self.json().get("kind"@) == (Some(JsonView::Text("subscription.session_event"@)))
                    &&& self.json().get("payload"@) == (Some(payload))
                    &&& self.json().get("sequence"@) == (Some(JsonView::Number(sequence as int)))
                    &&& self.json().get("subscriptionId"@) == (Some(JsonView::Text(subscription_id)))
                },
                SubscriptionFrameView::SessionDomainChanged { host_epoch, subscription_id, sequence } => {
                    &&& self.json().get("hostEpoch"@) == (Some(JsonView::Text(host_epoch)))
                    &&& self.json().get("kind"@) == (Some(JsonView::Text("subscription.session_domain_changed"@)))
                    &&& self.json().get("sequence"@) == (Some(JsonView::Number(sequence as int)))
                    &&& self.json().get("subscriptionId"@) == (Some(JsonView::Text(subscription_id)))
                },
                SubscriptionFrameView::Closed { host_epoch, subscription_id, reason } => {
                    &&& self.json().get("hostEpoch"@) == (Some(JsonView::Text(host_epoch)))
                    &&& self.json().get("kind"@) == (Some(JsonView::Text("subscription.closed"@)))
                    &&& self.json().get("reason"@) == (Some(reason.json()))
                    &&& self.json().get("subscriptionId"@) == (Some(JsonView::Text(subscription_id)))
                },
            },
    {
        let f = self.fields();
        match self {
            SubscriptionFrameView::SessionProjection { .. } => {
                assert(text_lt("hostEpoch"@, "kind"@)) by {
                    reveal_strlit("hostEpoch");
                    reveal_strlit("kind");
                    assert(lt_at("hostEpoch"@, "kind"@, 0));
                };
                assert(text_lt("kind"@, "sequence"@)) by {
                    reveal_strlit("kind");
                    reveal_strlit("sequence");
                    assert(lt_at("kind"@, "sequence"@, 0));
                };
                assert(text_lt("sequence"@, "snapshot"@)) by {
                    reveal_strlit("sequence");
                    reveal_strlit("snapshot");
                    assert(lt_at("sequence"@, "snapshot"@, 1));
                };
                assert(text_lt("snapshot"@, "subscriptionId"@)) by {
                    reveal_strlit("snapshot");
                    reveal_strlit("subscriptionId");
                    assert(lt_at("snapshot"@, "subscriptionId"@, 1));
                };
                lemma_step_ascends(f);
                lemma_lookup(f, 0);
                lemma_lookup(f, 1);
                lemma_lookup(f, 2);
                lemma_lookup(f, 3);
                lemma_lookup(f, 4);
            },
            SubscriptionFrameView::SessionDelta { .. } => {
                assert(text_lt("deltaKind"@, "hostEpoch"@)) by {
                    reveal_strlit("deltaKind");
                    reveal_strlit("hostEpoch");
                    assert(lt_at("deltaKind"@, "hostEpoch"@, 0));
                };
                assert(text_lt("hostEpoch"@, "kind"@)) by {
                    reveal_strlit("hostEpoch");
                    reveal_strlit("kind");
                    assert(lt_at("hostEpoch"@, "kind"@, 0));
                };
                assert(text_lt("kind"@, "messageId"@)) by {
                    reveal_strlit("kind");
                    reveal_strlit("messageId");
                    assert(lt_at("kind"@, "messageId"@, 0));
                };
                assert(text_lt("messageId"@, "runId"@)) by {
                    reveal_strlit("messageId");
                    reveal_strlit("runId");
                    assert(lt_at("messageId"@, "runId"@, 0));
                };
                assert(text_lt("runId"@, "sequence"@)) by {
                    reveal_strlit("runId");
                    reveal_strlit("sequence");
                    assert(lt_at("runId"@, "sequence"@, 0));
                };
                assert(text_lt("sequence"@, "startOffset"@)) by {
                    reveal_strlit("sequence");
                    reveal_strlit("startOffset");
                    assert(lt_at("sequence"@, "startOffset"@, 1));
                };
                assert(text_lt("startOffset"@, "subscriptionId"@)) by {
                    reveal_strlit("startOffset");
                    reveal_strlit("subscriptionId");
                    assert(lt_at("startOffset"@, "subscriptionId"@, 1));
                };
                assert(text_lt("subscriptionId"@, "text"@)) by {
                    reveal_strlit("subscriptionId");
                    reveal_strlit("text");
                    assert(lt_at("subscriptionId"@, "text"@, 0));
                };
                assert(text_lt("text"@, "turnId"@)) by {
                    reveal_strlit("text");
                    reveal_strlit("turnId");
                    assert(lt_at("text"@, "turnId"@, 1));
                };
                lemma_step_ascends(f);
                lemma_lookup(f, 0);
                lemma_lookup(f, 1);
                lemma_lookup(f, 2);
                lemma_lookup(f, 3);
                lemma_lookup(f, 4);
                lemma_lookup(f, 5);
                lemma_lookup(f, 6);
                lemma_lookup(f, 7);
                lemma_lookup(f, 8);
                lemma_lookup(f, 9);
            },
            SubscriptionFrameView::SessionEvent { .. } => {
                assert(text_lt("hostEpoch"@, "kind"@)) by {
                    reveal_strlit("hostEpoch");
                    reveal_strlit("kind");
                    assert(lt_at("hostEpoch"@, "kind"@, 0));
                };
                assert(text_lt("kind"@, "payload"@)) by {
                    reveal_strlit("kind");
                    reveal_strlit("payload");
                    assert(lt_at("kind"@, "payload"@, 0));
                };
                assert(text_lt("payload"@, "sequence"@)) by {
                    reveal_strlit("payload");
                    reveal_strlit("sequence");
                    assert(lt_at("payload"@, "sequence"@, 0));
                };
                assert(text_lt("sequence"@, "subscriptionId"@)) by {
                    reveal_strlit("sequence");
                    reveal_strlit("subscriptionId");
                    assert(lt_at("sequence"@, "subscriptionId"@, 1));
                };
                lemma_step_ascends(f);
                lemma_lookup(f, 0);
                lemma_lookup(f, 1);
                lemma_lookup(f, 2);
                lemma_lookup(f, 3);
                lemma_lookup(f, 4);
            },
            SubscriptionFrameView::SessionDomainChanged { .. } => {
                assert(text_lt("hostEpoch"@, "kind"@)) by {
                    reveal_strlit("hostEpoch");
                    reveal_strlit("kind");
                    assert(lt_at("hostEpoch"@, "kind"@, 0));
                };
                assert(text_lt("kind"@, "sequence"@)) by {
                    reveal_strlit("kind");
                    reveal_strlit("sequence");
                    assert(lt_at("kind"@, "sequence"@, 0));
                };
                assert(text_lt("sequence"@, "subscriptionId"@)) by {
                    reveal_strlit("sequence");
                    reveal_strlit("subscriptionId");
                    assert(lt_at("sequence"@, "subscriptionId"@, 1));
                };
                lemma_step_ascends(f);
                lemma_lookup(f, 0);
                lemma_lookup(f, 1);
                lemma_lookup(f, 2);
                lemma_lookup(f, 3);
            },
            SubscriptionFrameView::Closed { .. } => {
                assert(text_lt("hostEpoch"@, "kind"@)) by {
                    reveal_strlit("hostEpoch");
                    reveal_strlit("kind");
                    assert(lt_at("hostEpoch"@, "kind"@, 0));
                };
                assert(text_lt("kind"@, "reason"@)) by {
                    reveal_strlit("kind");
                    reveal_strlit("reason");
                    assert(lt_at("kind"@, "reason"@, 0));
                };
                assert(text_lt("reason"@, "subscriptionId"@)) by {
                    reveal_strlit("reason");
                    reveal_strlit("subscriptionId");
                    assert(lt_at("reason"@, "subscriptionId"@, 0));
                };
                lemma_step_ascends(f);
                lemma_lookup(f, 0);
                lemma_lookup(f, 1);
                lemma_lookup(f, 2);
                lemma_lookup(f, 3);
            },
        }
    }
}

} // verus!
