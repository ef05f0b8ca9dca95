//! The per-session canonical snapshot, and the `subscription.*` frames that fan
//! out to attached subscribers as runtime events arrive.
//!
//! The coordinator says which frame each subscriber gets; the caller puts the
//! frames on the subscribers' bounded queues and reports the ones that had no
//! room, which are then dropped (slow consumers).

use super::frames::ClosedReason;
use super::frames::DeltaKind;
use super::frames::SubscriptionFrame;
use super::frames::SubscriptionFrameView;
use super::snapshot::fresh_snapshot;
use super::snapshot::SessionContinuitySnapshot;
use super::snapshot::SessionContinuitySnapshotView;
use crate::ids::fresh_id;
use crate::ids::is_uuid_text;
use crate::json::items_view;
use crate::json::present;
use crate::json::Json;
use crate::json::JsonView;
use crate::json::ObjectBuilder;
use crate::runtime_event::Content;
use crate::runtime_event::ContentView;
use crate::runtime_event::Role;
use crate::runtime_event::RuntimeEvent;
use crate::runtime_event::RuntimeEventView;
use crate::text::str_eq;
use crate::text_map::as_map;
use crate::text_map::distinct_keys;
use crate::text_map::entries_with;
use crate::text_map::has_key;
use crate::text_map::lemma_seen;
use crate::text_map::lemma_seen_with;
use crate::text_map::seen;
use crate::text_map::Entries;
use crate::text_map::TextMap;
use crate::runtime_event::Status;
use vstd::prelude::*;

verus! {

/// Per-subscriber outbound queue depth. A subscriber that falls a full queue
/// behind is dropped.
pub const SUB_QUEUE: usize = 32;

/// One attached subscriber.
struct Subscriber {
    subscription_id: String,
    /// Sequence number the next frame to this subscriber will carry.
    next_sequence: u64,
}

struct SessionState {
    snapshot: SessionContinuitySnapshot,
    subscribers: Vec<Subscriber>,
}

/// What is known of a subscriber.
pub struct SubscriberView {
    pub subscription_id: Seq<char>,
    pub next_sequence: u64,
}

/// What is known of a session.
pub struct SessionView {
    pub snapshot: SessionContinuitySnapshotView,
    pub subscribers: Seq<SubscriberView>,
}

impl View for Subscriber {
    type V = SubscriberView;

    closed spec fn view(&self) -> SubscriberView {
        SubscriberView {
            subscription_id: self.subscription_id@,
            next_sequence: self.next_sequence,
        }
    }
}

spec fn subscriber_views(v: Seq<Subscriber>) -> Seq<SubscriberView> {
    Seq::new(v.len(), |i: int| v[i]@)
}

impl View for SessionState {
    type V = SessionView;

    closed spec fn view(&self) -> SessionView {
        SessionView {
            snapshot: self.snapshot@,
            subscribers: subscriber_views(self.subscribers@),
        }
    }
}

/// A frame and the subscriber it is for.
#[derive(Debug)]
pub struct Delivery {
    pub subscription_id: String,
    pub frame: SubscriptionFrame,
}

/// What a [`Delivery`] says.
pub struct DeliveryView {
    pub subscription_id: Seq<char>,
    pub frame: SubscriptionFrameView,
}

impl View for Delivery {
    type V = DeliveryView;

    open spec fn view(&self) -> DeliveryView {
        DeliveryView { subscription_id: self.subscription_id@, frame: self.frame@ }
    }
}

pub open spec fn delivery_views(v: Seq<Delivery>) -> Seq<DeliveryView> {
    Seq::new(v.len(), |i: int| v[i]@)
}

/// The result of opening a subscription: the canonical snapshot, and the sequence
/// that the first streamed frame will carry.
#[derive(Debug)]
pub struct OpenedSubscription {
    pub subscription_id: String,
    pub next_sequence: u64,
    pub snapshot: SessionContinuitySnapshot,
}

// ---------------------------------------------------------------------------
// The model
// ---------------------------------------------------------------------------

/// What a canonical event or an assistant text makes of a session: the frame's
/// content, without the subscriber it is for.
pub enum Broadcast {
    Projection { snapshot: JsonView },
    Delta { turn_id: Seq<char>, run_id: Seq<char>, message_id: Seq<char>, text: Seq<char> },
}

/// The frame that carries a broadcast to one subscriber.
pub open spec fn frame_for(
    b: Broadcast,
    host_epoch: Seq<char>,
    sub: SubscriberView,
) -> SubscriptionFrameView {
    match b {
        Broadcast::Projection { snapshot } => SubscriptionFrameView::SessionProjection {
            host_epoch,
            subscription_id: sub.subscription_id,
            sequence: sub.next_sequence,
            snapshot,
        },
        Broadcast::Delta {
            turn_id,
            run_id,
            message_id,
            text,
        } => SubscriptionFrameView::SessionDelta {
            host_epoch,
            subscription_id: sub.subscription_id,
            sequence: sub.next_sequence,
            turn_id,
            run_id,
            message_id,
            delta_kind: DeltaKind::Text,
            start_offset: 0,
            text,
        },
    }
}

/// One delivery to every subscriber, in order.
pub open spec fn deliveries(
    b: Broadcast,
    host_epoch: Seq<char>,
    subs: Seq<SubscriberView>,
) -> Seq<DeliveryView> {
    Seq::new(
        subs.len(),
        |i: int|
            DeliveryView {
                subscription_id: subs[i].subscription_id,
                frame: frame_for(b, host_epoch, subs[i]),
            },
    )
}

/// The subscribers with each one's sequence advanced by one.
pub open spec fn advanced(subs: Seq<SubscriberView>) -> Seq<SubscriberView> {
    Seq::new(
        subs.len(),
        |i: int| SubscriberView { next_sequence: (subs[i].next_sequence + 1) as u64, ..subs[i] },
    )
}

/// The turn a canonical event is about, as the snapshot shows it.
pub open spec fn root_turn(e: RuntimeEventView, run_id: Seq<char>) -> JsonView {
    JsonView::Object(
        present(
            Seq::empty()
                .push(("runId"@, Some(JsonView::Text(run_id))))
                .push(("status"@, Some(JsonView::Text(e.status->0.wire()))))
                .push(("turnId"@, Some(JsonView::Text(e.turn_id)))),
        ),
    )
}

/// The snapshot behind an event: a status is a canonical transition.
pub open spec fn projected(
    s: SessionContinuitySnapshotView,
    e: RuntimeEventView,
    run_id: Seq<char>,
) -> SessionContinuitySnapshotView {
    if e.status is Some {
        SessionContinuitySnapshotView {
            projection_revision: (s.projection_revision + 1) as u64,
            root_turn: Some(root_turn(e, run_id)),
            ..s
        }
    } else {
        s
    }
}

/// What an event broadcasts: a status the new snapshot, a model text its delta,
/// anything else nothing.
pub open spec fn broadcast_of(
    s: SessionContinuitySnapshotView,
    e: RuntimeEventView,
    run_id: Seq<char>,
) -> Option<Broadcast> {
    if e.status is Some {
        Some(Broadcast::Projection { snapshot: projected(s, e, run_id).json() })
    } else {
        match (e.role, e.content) {
            (Role::Model, Some(ContentView::Text { text, .. })) => Some(
                Broadcast::Delta { turn_id: e.turn_id, run_id, message_id: e.id, text },
            ),
            _ => None,
        }
    }
}

/// The session behind a broadcast.
pub open spec fn after_broadcast(
    state: SessionView,
    snapshot: SessionContinuitySnapshotView,
    b: Option<Broadcast>,
) -> SessionView {
    SessionView {
        snapshot,
        subscribers: if b is Some {
            advanced(state.subscribers)
        } else {
            state.subscribers
        },
    }
}

/// What a broadcast delivers.
pub open spec fn delivered(state: SessionView, b: Option<Broadcast>, host_epoch: Seq<char>) -> Seq<
    DeliveryView,
> {
    match b {
        Some(b) => deliveries(b, host_epoch, state.subscribers),
        None => Seq::empty(),
    }
}

/// The session's counters can count one more transition.
pub open spec fn has_room(state: SessionView) -> bool {
    &&& state.snapshot.projection_revision < u64::MAX
    &&& forall|i: int|
        0 <= i < state.subscribers.len() ==> (#[trigger] state.subscribers[i]).next_sequence
            < u64::MAX
}

/// The session `session_id`, fresh where it is not known.
pub open spec fn session_or_fresh(sessions: Entries<SessionView>, session_id: Seq<char>) ->
    SessionView {
    if has_key(sessions, session_id) {
        as_map(sessions)[session_id]
    } else {
        SessionView { snapshot: fresh_snapshot(session_id), subscribers: Seq::empty() }
    }
}

/// The place of the subscriber with this id.
pub open spec fn subscriber_at(subs: Seq<SubscriberView>, id: Seq<char>) -> Option<int>
    decreases subs.len(),
{
    if subs.len() == 0 {
        None
    } else {
        match subscriber_at(subs.drop_last(), id) {
            Some(i) => Some(i),
            None => if subs.last().subscription_id == id {
                Some(subs.len() - 1)
            } else {
                None
            },
        }
    }
}

/// The subscribers without the one at `i`, whose place the last one takes.
pub open spec fn swap_removed(subs: Seq<SubscriberView>, i: int) -> Seq<SubscriberView> {
    subs.update(i, subs.last()).drop_last()
}

/// The subscribers without the one with this id.
pub open spec fn without_subscriber(subs: Seq<SubscriberView>, id: Seq<char>) -> Seq<
    SubscriberView,
> {
    match subscriber_at(subs, id) {
        Some(i) => swap_removed(subs, i),
        None => subs,
    }
}

/// Every session without the subscriber with this id.
pub open spec fn without_subscription(sessions: Entries<SessionView>, id: Seq<char>) -> Entries<
    SessionView,
> {
    seen(
        sessions,
        |s: SessionView| SessionView { subscribers: without_subscriber(s.subscribers, id), ..s },
    )
}

/// Some session has a subscriber with this id.
pub open spec fn subscribed(sessions: Entries<SessionView>, id: Seq<char>) -> bool {
    exists|i: int|
        0 <= i < sessions.len() && subscriber_at((#[trigger] sessions[i]).1.subscribers, id) is Some
}

// ---------------------------------------------------------------------------
// The coordinator
// ---------------------------------------------------------------------------

/// The sessions that clients follow.
pub struct SessionContinuityCoordinator {
    sessions: TextMap<SessionState>,
}

impl Default for SessionContinuityCoordinator {
    fn default() -> (r: Self)
        ensures
            r.wf(),
            r.sessions() == Seq::<(Seq<char>, SessionView)>::empty(),
    {
        SessionContinuityCoordinator::new()
    }
}

/// The place of the first subscriber with this id.
fn find_subscriber(subs: &Vec<Subscriber>, id: &str) -> (r: Option<usize>)
    ensures
        match r {
            Some(i) => i < subs@.len() && subscriber_at(subscriber_views(subs@), id@) == Some(
                i as int,
            ),
            None => subscriber_at(subscriber_views(subs@), id@) is None,
        },
{
    let ghost all = subscriber_views(subs@);
    let mut i: usize = 0;
    while i < subs.len()
        invariant
            i <= subs.len(),
            all == subscriber_views(subs@),
            subscriber_at(all.take(i as int), id@) is None,
        decreases subs.len() - i,
    {
        assert(all.take(i + 1).drop_last() =~= all.take(i as int));
        assert(all.take(i + 1).last() == subs@[i as int]@);
        if str_eq(subs[i].subscription_id.as_str(), id) {
            proof {
                lemma_first_subscriber(all, id@, i + 1);
            }
            return Some(i);
        }
        i = i + 1;
    }
    assert(all.take(i as int) =~= all);
    None
}

/// What is found in a prefix is found in the whole.
proof fn lemma_first_subscriber(subs: Seq<SubscriberView>, id: Seq<char>, n: int)
    requires
        0 <= n <= subs.len(),
        subscriber_at(subs.take(n), id) is Some,
    ensures
        subscriber_at(subs, id) == subscriber_at(subs.take(n), id),
    decreases subs.len() - n,
{
    if n < subs.len() {
        assert(subs.take(n + 1).drop_last() =~= subs.take(n));
        lemma_first_subscriber(subs, id, n + 1);
    } else {
        assert(subs.take(n) =~= subs);
    }
}

/// Builds one delivery per subscriber and advances their sequences.
fn fan_out(state: &mut SessionState, host_epoch: &str, event: &Pushed) -> (r: Vec<Delivery>)
    requires
        forall|i: int|
            0 <= i < old(state)@.subscribers.len() ==> (#[trigger] old(state)@.subscribers[i]).next_sequence < u64::MAX,
    ensures
        final(state)@ == after_broadcast(old(state)@, old(state)@.snapshot, Some(event@)),
        delivery_views(r@) == deliveries(event@, host_epoch@, old(state)@.subscribers),
{
    let ghost before = state@;
    let mut out: Vec<Delivery> = Vec::new();
    let mut i: usize = 0;
    while i < state.subscribers.len()
        invariant
            i <= state.subscribers@.len(),
            i == out@.len(),
            forall|i: int|
                0 <= i < before.subscribers.len() ==> (#[trigger] before.subscribers[i]).next_sequence
                    < u64::MAX,
            state.snapshot@ == before.snapshot,
            state.subscribers@.len() == before.subscribers.len(),
            forall|k: int|
                0 <= k < i ==> (#[trigger] state.subscribers@[k])@ == advanced(
                    before.subscribers,
                )[k],
            forall|k: int|
                i <= k < before.subscribers.len() ==> (#[trigger] state.subscribers@[k])@
                    == before.subscribers[k],
            forall|k: int|
                0 <= k < i ==> (#[trigger] out@[k])@ == deliveries(
                    event@,
                    host_epoch@,
                    before.subscribers,
                )[k],
        decreases before.subscribers.len() - i,
    {
        assert(state.subscribers@[i as int]@ == before.subscribers[i as int]);
        assert(before.subscribers[i as int].next_sequence < u64::MAX);
        let sequence = state.subscribers[i].next_sequence;
        let id = state.subscribers[i].subscription_id.clone();
        state.subscribers[i].next_sequence = sequence + 1;
        out.push(
            Delivery {
                subscription_id: id.clone(),
                frame: event.to_frame(host_epoch, id.as_str(), sequence),
            },
        );
        i = i + 1;
    }
    assert(state@.subscribers =~= advanced(before.subscribers));
    assert(delivery_views(out@) =~= deliveries(event@, host_epoch@, before.subscribers));
    out
}

/// What is pushed to every subscriber of a session.
enum Pushed {
    Projection { snapshot: Json },
    Delta { turn_id: String, run_id: String, message_id: String, text: String },
}

impl View for Pushed {
    type V = Broadcast;

    closed spec fn view(&self) -> Broadcast {
        match *self {
            Pushed::Projection { snapshot } => Broadcast::Projection { snapshot: snapshot@ },
            Pushed::Delta { turn_id, run_id, message_id, text } => Broadcast::Delta {
                turn_id: turn_id@,
                run_id: run_id@,
                message_id: message_id@,
                text: text@,
            },
        }
    }
}

impl Pushed {
    fn to_frame(&self, host_epoch: &str, subscription_id: &str, sequence: u64) -> (r:
        SubscriptionFrame)
        ensures
            r@ == frame_for(
                self@,
                host_epoch@,
                SubscriberView { subscription_id: subscription_id@, next_sequence: sequence },
            ),
    {
        match self {
            Pushed::Projection { snapshot } => SubscriptionFrame::SessionProjection {
                host_epoch: host_epoch.to_owned(),
                subscription_id: subscription_id.to_owned(),
                sequence,
                snapshot: snapshot.clone(),
            },
            Pushed::Delta { turn_id, run_id, message_id, text } => SubscriptionFrame::SessionDelta {
                host_epoch: host_epoch.to_owned(),
                subscription_id: subscription_id.to_owned(),
                sequence,
                turn_id: turn_id.clone(),
                run_id: run_id.clone(),
                message_id: message_id.clone(),
                delta_kind: DeltaKind::Text,
                start_offset: 0,
                text: text.clone(),
            },
        }
    }
}

fn root_turn_json(event: &RuntimeEvent, run_id: &str, status: &str) -> (r: Json)
    requires
        event@.status is Some,
        status@ == event@.status->0.wire(),
    ensures
        r@ == root_turn(event@, run_id@),
{
    let mut b = ObjectBuilder::new();
    b.put_text("runId", run_id);
    b.put_text("status", status);
    b.put_text("turnId", event.turn_id.as_str());
    b.build()
}

impl SessionState {
    fn fresh(session_id: &str) -> (r: Self)
        ensures
            r@ == (SessionView {
                snapshot: fresh_snapshot(session_id@),
                subscribers: Seq::empty(),
            }),
    {
        let r = SessionState {
            snapshot: SessionContinuitySnapshot::fresh(session_id),
            subscribers: Vec::new(),
        };
        assert(r@.subscribers =~= Seq::empty());
        r
    }

    fn accept(&mut self, run_id: &str, host_epoch: &str, event: &RuntimeEvent) -> (r: Vec<Delivery>)
        requires
            has_room(old(self)@),
        ensures
            final(self)@ == after_broadcast(
                old(self)@,
                projected(old(self)@.snapshot, event@, run_id@),
                broadcast_of(old(self)@.snapshot, event@, run_id@),
            ),
            delivery_views(r@) == delivered(
                old(self)@,
                broadcast_of(old(self)@.snapshot, event@, run_id@),
                host_epoch@,
            ),
    {
        if let Some(status) = event.status {
            self.snapshot.projection_revision = self.snapshot.projection_revision + 1;
            self.snapshot.root_turn = Some(root_turn_json(event, run_id, status.as_str()));
            let pushed = Pushed::Projection { snapshot: self.snapshot.to_json() };
            return fan_out(self, host_epoch, &pushed);
        }
        match (&event.role, &event.content) {
            (Role::Model, Some(Content::Text { text, .. })) => {
                let pushed = Pushed::Delta {
                    turn_id: event.turn_id.clone(),
                    run_id: run_id.to_owned(),
                    message_id: event.id.clone(),
                    text: text.clone(),
                };
                fan_out(self, host_epoch, &pushed)
            },
            _ => {
                let none: Vec<Delivery> = Vec::new();
                assert(delivery_views(none@) =~= Seq::empty());
                none
            },
        }
    }

    fn set_pending(&mut self, host_epoch: &str, views: Vec<Json>) -> (r: Vec<Delivery>)
        requires
            has_room(old(self)@),
        ensures
            final(self)@ == after_broadcast(
                old(self)@,
                with_pending(old(self)@.snapshot, items_view(views@)),
                Some(pending_broadcast(old(self)@.snapshot, items_view(views@))),
            ),
            delivery_views(r@) == deliveries(
                pending_broadcast(old(self)@.snapshot, items_view(views@)),
                host_epoch@,
                old(self)@.subscribers,
            ),
    {
        self.snapshot.interactions_pending = views;
        self.snapshot.projection_revision = self.snapshot.projection_revision + 1;
        let pushed = Pushed::Projection { snapshot: self.snapshot.to_json() };
        fan_out(self, host_epoch, &pushed)
    }
}

/// The snapshot with the pending prompts replaced: a canonical transition.
pub open spec fn with_pending(s: SessionContinuitySnapshotView, views: Seq<JsonView>) ->
    SessionContinuitySnapshotView {
    SessionContinuitySnapshotView {
        projection_revision: (s.projection_revision + 1) as u64,
        interactions_pending: views,
        ..s
    }
}

/// What replacing the pending prompts broadcasts.
pub open spec fn pending_broadcast(s: SessionContinuitySnapshotView, views: Seq<JsonView>) ->
    Broadcast {
    Broadcast::Projection { snapshot: with_pending(s, views).json() }
}

impl SessionContinuityCoordinator {
    pub closed spec fn wf(&self) -> bool {
        self.sessions.wf()
    }

    /// What is known of each session, in the order in which they became known.
    pub closed spec fn sessions(&self) -> Entries<SessionView> {
        seen(self.sessions@, |s: SessionState| s@)
    }

    pub fn new() -> (r: Self)
        ensures
            r.wf(),
            r.sessions() == Seq::<(Seq<char>, SessionView)>::empty(),
    {
        let r = SessionContinuityCoordinator { sessions: TextMap::new() };
        assert(r.sessions() =~= Seq::<(Seq<char>, SessionView)>::empty());
        r
    }

    /// Attaches the subscriber `id` to a session: it gets the current snapshot, and
    /// its first frame will carry sequence 1.
    pub fn open_as(&mut self, id: &str, session_id: &str) -> (r: OpenedSubscription)
        requires
            old(self).wf(),
        ensures
            final(self).wf(),
            r.subscription_id@ == id@,
            r.next_sequence == 1,
            r.snapshot@ == session_or_fresh(old(self).sessions(), session_id@).snapshot,
            final(self).sessions() == entries_with(
                old(self).sessions(),
                session_id@,
                attached(session_or_fresh(old(self).sessions(), session_id@), id@),
            ),
    {
        let ghost before = self.sessions@;
        let ghost f = |s: SessionState| s@;
        let sub = Subscriber { subscription_id: id.to_owned(), next_sequence: 1 };
        proof {
            lemma_seen(before, f, session_id@);
        }
        let snapshot = match self.sessions.find(session_id) {
            Some(i) => {
                let state = self.sessions.at_mut(i);
                let ghost was = state@;
                state.subscribers.push(sub);
                assert(state@.subscribers =~= attached(was, id@).subscribers);
                proof {
                    lemma_seen_with(before, f, session_id@, *state);
                    crate::text_map::lemma_update(before, i as int, *state);
                }
                state.snapshot.clone()
            },
            None => {
                let mut state = SessionState::fresh(session_id);
                let ghost was = state@;
                state.subscribers.push(sub);
                assert(state@.subscribers =~= attached(was, id@).subscribers);
                proof {
                    lemma_seen_with(before, f, session_id@, state);
                }
                let snapshot = state.snapshot.clone();
                self.sessions.insert(session_id, state);
                snapshot
            },
        };
        OpenedSubscription { subscription_id: id.to_owned(), next_sequence: 1, snapshot }
    }

    /// Opens a subscription under a fresh id.
    pub fn open_subscription(&mut self, session_id: &str) -> (r: OpenedSubscription)
        requires
            old(self).wf(),
        ensures
            final(self).wf(),
            is_uuid_text(r.subscription_id@),
            r.next_sequence == 1,
            r.snapshot@ == session_or_fresh(old(self).sessions(), session_id@).snapshot,
            final(self).sessions() == entries_with(
                old(self).sessions(),
                session_id@,
                attached(
                    session_or_fresh(old(self).sessions(), session_id@),
                    r.subscription_id@,
                ),
            ),
    {
        let id = fresh_id();
        self.open_as(id.as_str(), session_id)
    }

    /// Whether the counters of a session can count one more transition.
    pub fn can_accept(&self, session_id: &str) -> (r: bool)
        requires
            self.wf(),
        ensures
            r == has_room(session_or_fresh(self.sessions(), session_id@)),
    {
        proof {
            lemma_seen(self.sessions@, |s: SessionState| s@, session_id@);
        }
        match self.sessions.get(session_id) {
            None => true,
            Some(state) => {
                if state.snapshot.projection_revision == u64::MAX {
                    return false;
                }
                let mut i: usize = 0;
                while i < state.subscribers.len()
                    invariant
                        i <= state.subscribers@.len(),
                        state@ == session_or_fresh(self.sessions(), session_id@),
                        state@.snapshot.projection_revision < u64::MAX,
                        forall|k: int|
                            0 <= k < i ==> (#[trigger] state@.subscribers[k]).next_sequence
                                < u64::MAX,
                    decreases state.subscribers@.len() - i,
                {
                    assert(state@.subscribers[i as int] == state.subscribers@[i as int]@);
                    if state.subscribers[i].next_sequence == u64::MAX {
                        return false;
                    }
                    i = i + 1;
                }
                true
            },
        }
    }

    /// Maps a runtime event to the frames its session's subscribers get. An event
    /// of a session that nobody has subscribed to changes nothing.
    pub fn accept_runtime_event(
        &mut self,
        session_id: &str,
        run_id: &str,
        host_epoch: &str,
        event: &RuntimeEvent,
    ) -> (r: Vec<Delivery>)
        requires
            old(self).wf(),
            has_room(session_or_fresh(old(self).sessions(), session_id@)),
        ensures
            final(self).wf(),
            !has_key(old(self).sessions(), session_id@) ==> r@.len() == 0 && final(self).sessions()
                == old(self).sessions(),
            has_key(old(self).sessions(), session_id@) ==> {
                let state = as_map(old(self).sessions())[session_id@];
                let b = broadcast_of(state.snapshot, event@, run_id@);
                &&& final(self).sessions() == entries_with(
                    old(self).sessions(),
                    session_id@,
                    after_broadcast(state, projected(state.snapshot, event@, run_id@), b),
                )
                &&& delivery_views(r@) == delivered(state, b, host_epoch@)
            },
    {
        let ghost before = self.sessions@;
        let ghost f = |s: SessionState| s@;
        proof {
            lemma_seen(before, f, session_id@);
        }
        match self.sessions.find(session_id) {
            None => Vec::new(),
            Some(i) => {
                let state = self.sessions.at_mut(i);
                let out = state.accept(run_id, host_epoch, event);
                proof {
                    lemma_seen_with(before, f, session_id@, *state);
                    crate::text_map::lemma_update(before, i as int, *state);
                }
                out
            },
        }
    }

    /// Replaces the pending prompts that a session's snapshot shows.
    pub fn set_pending_interactions(
        &mut self,
        session_id: &str,
        host_epoch: &str,
        views: Vec<Json>,
    ) -> (r: Vec<Delivery>)
        requires
            old(self).wf(),
            has_room(session_or_fresh(old(self).sessions(), session_id@)),
        ensures
            final(self).wf(),
            ({
                let state = session_or_fresh(old(self).sessions(), session_id@);
                let b = pending_broadcast(state.snapshot, items_view(views@));
                &&& final(self).sessions() == entries_with(
                    old(self).sessions(),
                    session_id@,
                    after_broadcast(
                        state,
                        with_pending(state.snapshot, items_view(views@)),
                        Some(b),
                    ),
                )
                &&& delivery_views(r@) == deliveries(b, host_epoch@, state.subscribers)
            }),
    {
        let ghost before = self.sessions@;
        let ghost f = |s: SessionState| s@;
        proof {
            lemma_seen(before, f, session_id@);
        }
        match self.sessions.find(session_id) {
            None => {
                let mut state = SessionState::fresh(session_id);
                let out = state.set_pending(host_epoch, views);
                proof {
                    lemma_seen_with(before, f, session_id@, state);
                }
                self.sessions.insert(session_id, state);
                out
            },
            Some(i) => {
                let state = self.sessions.at_mut(i);
                let out = state.set_pending(host_epoch, views);
                proof {
                    lemma_seen_with(before, f, session_id@, *state);
                    crate::text_map::lemma_update(before, i as int, *state);
                }
                out
            },
        }
    }

    /// Detaches a subscriber. The notice says why, and goes to the subscriber's
    /// queue if there is room for it; there is none when it was not attached.
    fn detach(&mut self, subscription_id: &str, host_epoch: &str, reason: ClosedReason) -> (r:
        Option<Delivery>)
        requires
            old(self).wf(),
        ensures
            final(self).wf(),
            final(self).sessions() == without_subscription(old(self).sessions(), subscription_id@),
            match r {
                Some(d) => subscribed(old(self).sessions(), subscription_id@) && d@ == notice(
                    subscription_id@,
                    host_epoch@,
                    reason,
                ),
                None => !subscribed(old(self).sessions(), subscription_id@),
            },
    {
        let ghost before = self.sessions();
        let ghost start = self.sessions@;
        let mut found = false;
        let mut i: usize = 0;
        while i < self.sessions.len()
            invariant
                i <= self.sessions@.len(),
                before == seen(start, |s: SessionState| s@),
                distinct_keys(start),
                self.sessions@.len() == start.len(),
                forall|k: int| 0 <= k < start.len() ==> (#[trigger] self.sessions@[k]).0 == start[k].0,
                forall|k: int|
                    0 <= k < i ==> (#[trigger] self.sessions@[k]).1@ == (SessionView {
                        subscribers: without_subscriber(before[k].1.subscribers, subscription_id@),
                        ..before[k].1
                    }),
                forall|k: int| i <= k < start.len() ==> #[trigger] self.sessions@[k] == start[k],
                found == exists|k: int|
                    0 <= k < i && subscriber_at(
                        (#[trigger] before[k]).1.subscribers,
                        subscription_id@,
                    ) is Some,
            decreases start.len() - i,
        {
            let ghost now = self.sessions@;
            assert(before[i as int].1 == now[i as int].1@);
            let state = self.sessions.at_mut(i);
            let ghost was = state@;
            if let Some(at) = find_subscriber(&state.subscribers, subscription_id) {
                state.subscribers.swap_remove(at);
                assert(state@.subscribers =~= swap_removed(was.subscribers, at as int));
                found = true;
                assert(subscriber_at(before[i as int].1.subscribers, subscription_id@) is Some);
            }
            i = i + 1;
        }
        proof {
            assert(self.sessions() =~= without_subscription(before, subscription_id@));
            assert forall|a: int, b: int| 0 <= a < b < self.sessions@.len() implies (
            #[trigger] self.sessions@[a]).0 != (#[trigger] self.sessions@[b]).0 by {
                assert(start[a].0 != start[b].0);
            }
        }
        if found {
            Some(
                Delivery {
                    subscription_id: subscription_id.to_owned(),
                    frame: SubscriptionFrame::closed(host_epoch, subscription_id, reason),
                },
            )
        } else {
            None
        }
    }

    /// Closes a subscription at the client's wish.
    pub fn close_subscription(&mut self, subscription_id: &str, host_epoch: &str) -> (r: Option<
        Delivery,
    >)
        requires
            old(self).wf(),
        ensures
            final(self).wf(),
            final(self).sessions() == without_subscription(old(self).sessions(), subscription_id@),
            match r {
                Some(d) => subscribed(old(self).sessions(), subscription_id@) && d@ == notice(
                    subscription_id@,
                    host_epoch@,
                    ClosedReason::SessionRemoved,
                ),
                None => !subscribed(old(self).sessions(), subscription_id@),
            },
    {
        self.detach(subscription_id, host_epoch, ClosedReason::SessionRemoved)
    }

    /// Drops a subscriber whose queue had no room for a frame. The notice is best
    /// effort: on a full queue it is lost, and the client sees the stream end.
    pub fn drop_slow_consumer(&mut self, subscription_id: &str, host_epoch: &str) -> (r: Option<
        Delivery,
    >)
        requires
            old(self).wf(),
        ensures
            final(self).wf(),
            final(self).sessions() == without_subscription(old(self).sessions(), subscription_id@),
            match r {
                Some(d) => subscribed(old(self).sessions(), subscription_id@) && d@ == notice(
                    subscription_id@,
                    host_epoch@,
                    ClosedReason::SlowConsumer,
                ),
                None => !subscribed(old(self).sessions(), subscription_id@),
            },
    {
        self.detach(subscription_id, host_epoch, ClosedReason::SlowConsumer)
    }
}

/// The notice that a subscription was closed.
pub open spec fn notice(id: Seq<char>, host_epoch: Seq<char>, reason: ClosedReason) -> DeliveryView {
    DeliveryView {
        subscription_id: id,
        frame: SubscriptionFrameView::Closed { host_epoch, subscription_id: id, reason },
    }
}

/// The session with one more subscriber.
pub open spec fn attached(state: SessionView, id: Seq<char>) -> SessionView {
    SessionView {
        subscribers: state.subscribers.push(
            SubscriberView { subscription_id: id, next_sequence: 1 },
        ),
        ..state
    }
}

/// The projection revision advances by one with every canonical transition, and
/// with nothing else.
pub proof fn law_revision_counts_transitions(
    s: SessionContinuitySnapshotView,
    e: RuntimeEventView,
    run_id: Seq<char>,
    views: Seq<JsonView>,
)
    requires
        s.projection_revision < u64::MAX,
    ensures
        e.status is Some ==> projected(s, e, run_id).projection_revision == s.projection_revision + 1,
        e.status is None ==> projected(s, e, run_id) == s,
        with_pending(s, views).projection_revision == s.projection_revision + 1,
{
}

/// Each subscriber gets every broadcast under its own next sequence number, one
/// higher each time, and nobody else's frames.
pub proof fn law_sequences_have_no_gaps(
    b: Broadcast,
    host_epoch: Seq<char>,
    subs: Seq<SubscriberView>,
    i: int,
)
    requires
        0 <= i < subs.len(),
        subs[i].next_sequence < u64::MAX,
    ensures
        deliveries(b, host_epoch, subs).len() == subs.len(),
        deliveries(b, host_epoch, subs)[i].subscription_id == subs[i].subscription_id,
        deliveries(b, host_epoch, subs)[i].frame.sequence() == Some(subs[i].next_sequence),
        advanced(subs)[i].subscription_id == subs[i].subscription_id,
        advanced(subs)[i].next_sequence == subs[i].next_sequence + 1,
{
}

/// What a client that subscribes now is shown is what the last projection showed
/// the others.
pub proof fn law_snapshot_is_the_last_projection(
    state: SessionView,
    e: RuntimeEventView,
    run_id: Seq<char>,
)
    requires
        e.status is Some,
    ensures
        broadcast_of(state.snapshot, e, run_id) == Some(
            Broadcast::Projection {
                snapshot: after_broadcast(
                    state,
                    projected(state.snapshot, e, run_id),
                    broadcast_of(state.snapshot, e, run_id),
                ).snapshot.json(),
            },
        ),
{
}

/// The turn that a projection shows is the one that the event is about, in the status
/// that the event gives it: for every status, the name that is shown reads back as that
/// status, and turn and run read back as the event's turn and the run. Nothing else of
/// the snapshot changes but its revision.
pub proof fn law_projections_show_the_event(
    s: SessionContinuitySnapshotView,
    e: RuntimeEventView,
    run_id: Seq<char>,
)
    requires
        e.status is Some,
    ensures
        projected(s, e, run_id).root_turn matches Some(turn) && {
            &&& turn.text_at("status"@) matches Some(name) && Status::of_wire(name) == e.status
            &&& turn.text_at("turnId"@) == Some(e.turn_id)
            &&& turn.text_at("runId"@) == Some(run_id)
        },
        projected(s, e, run_id).session_id == s.session_id,
        projected(s, e, run_id).status == s.status,
        projected(s, e, run_id).queue == s.queue,
        projected(s, e, run_id).interactions_pending == s.interactions_pending,
{
    let f: Seq<crate::json::Field> = Seq::empty().push(("runId"@, Some(JsonView::Text(run_id)))).push(
        ("status"@, Some(JsonView::Text(e.status->0.wire()))),
    ).push(("turnId"@, Some(JsonView::Text(e.turn_id))));
    assert(crate::text::text_lt("runId"@, "status"@)) by {
        reveal_strlit("runId");
        reveal_strlit("status");
        assert(crate::text::lt_at("runId"@, "status"@, 0));
    }
    assert(crate::text::text_lt("status"@, "turnId"@)) by {
        reveal_strlit("status");
        reveal_strlit("turnId");
        assert(crate::text::lt_at("status"@, "turnId"@, 0));
    }
    crate::schema::lemma_step_ascends(f);
    crate::schema::lemma_lookup(f, 0);
    crate::schema::lemma_lookup(f, 1);
    crate::schema::lemma_lookup(f, 2);
    e.status->0.lemma_wire();
}

/// What each subscriber of a session gets of an event: an event with a status comes as
/// the snapshot that it makes; one without, that is text of the model, comes as that text
/// from its start, under the event's own turn and id and the run; and nothing else is
/// sent. Every frame is for its own subscriber, under the host's epoch and the
/// subscriber's next sequence.
pub proof fn law_events_reach_every_subscriber(
    state: SessionView,
    e: RuntimeEventView,
    run_id: Seq<char>,
    host_epoch: Seq<char>,
    i: int,
)
    requires
        0 <= i < state.subscribers.len(),
    ensures
        ({
            let sent = delivered(state, broadcast_of(state.snapshot, e, run_id), host_epoch);
            let sub = state.subscribers[i];
            match (e.status, e.role, e.content) {
                (Some(_), _, _) => sent.len() == state.subscribers.len() && sent[i] == (DeliveryView {
                    subscription_id: sub.subscription_id,
                    frame: SubscriptionFrameView::SessionProjection {
                        host_epoch,
                        subscription_id: sub.subscription_id,
                        sequence: sub.next_sequence,
                        snapshot: projected(state.snapshot, e, run_id).json(),
                    },
                }),
                (None, Role::Model, Some(ContentView::Text { text, .. })) => sent.len()
                    == state.subscribers.len() && sent[i] == (DeliveryView {
                    subscription_id: sub.subscription_id,
                    frame: SubscriptionFrameView::SessionDelta {
                        host_epoch,
                        subscription_id: sub.subscription_id,
                        sequence: sub.next_sequence,
                        turn_id: e.turn_id,
                        run_id,
                        message_id: e.id,
                        delta_kind: DeltaKind::Text,
                        start_offset: 0,
                        text,
                    },
                }),
                _ => sent.len() == 0,
            }
        }),
{
}

/// A session that nobody has followed is shown as new: ready, at revision 0, without a
/// turn, messages or prompts; and its first frame to a subscriber has sequence 1.
pub proof fn law_new_sessions_are_shown_as_new(
    sessions: Entries<SessionView>,
    session_id: Seq<char>,
    id: Seq<char>,
)
    requires
        !has_key(sessions, session_id),
    ensures
        ({
            let state = attached(session_or_fresh(sessions, session_id), id);
            &&& state.snapshot.session_id == session_id
            &&& state.snapshot.projection_revision == 0
            &&& state.snapshot.status == "ready"@
            &&& state.snapshot.root_turn is None
            &&& state.snapshot.queue.queue_revision == 0
            &&& state.snapshot.queue.steering.len() == 0
            &&& state.snapshot.queue.followup.len() == 0
            &&& state.snapshot.interactions_pending.len() == 0
            &&& state.subscribers.len() == 1
            &&& state.subscribers[0].subscription_id == id
            &&& state.subscribers[0].next_sequence == 1
        }),
{
}

/// Attaching a subscriber leaves the snapshot and the other subscribers as they are.
pub proof fn law_attaching_adds_one_subscriber(state: SessionView, id: Seq<char>)
    ensures
        attached(state, id).snapshot == state.snapshot,
        attached(state, id).subscribers.len() == state.subscribers.len() + 1,
        forall|i: int|
            0 <= i < state.subscribers.len() ==> #[trigger] attached(state, id).subscribers[i]
                == state.subscribers[i],
        attached(state, id).subscribers.last().subscription_id == id,
        attached(state, id).subscribers.last().next_sequence == 1,
{
}

/// Detaching a subscriber takes away that one and keeps every other as it is; where there
/// is none with this id, nothing changes.
pub proof fn law_detaching_takes_one_subscriber(
    subs: Seq<SubscriberView>,
    id: Seq<char>,
    other: SubscriberView,
)
    requires
        other.subscription_id != id,
    ensures
        subs.contains(other) ==> without_subscriber(subs, id).contains(other),
        without_subscriber(subs, id).contains(other) ==> subs.contains(other),
        (exists|i: int| 0 <= i < subs.len() && (#[trigger] subs[i]).subscription_id == id)
            ==> without_subscriber(subs, id).len() == subs.len() - 1,
        !(exists|i: int| 0 <= i < subs.len() && (#[trigger] subs[i]).subscription_id == id)
            ==> without_subscriber(subs, id) == subs,
        (forall|i: int, j: int|
            0 <= i < j < subs.len() ==> (#[trigger] subs[i]).subscription_id != (
            #[trigger] subs[j]).subscription_id) ==> forall|k: int|
            0 <= k < without_subscriber(subs, id).len() ==> (#[trigger] without_subscriber(
                subs,
                id,
            )[k]).subscription_id != id,
{
    lemma_subscriber_at(subs, id);
    let out = without_subscriber(subs, id);
    if let Some(i) = subscriber_at(subs, id) {
        let n = subs.len() - 1;
        if subs.contains(other) {
            let k = choose|k: int| 0 <= k < subs.len() && subs[k] == other;
            if k == n {
                assert(out[i] == other);
            } else {
                assert(out[k] == other);
            }
        }
        if out.contains(other) {
            let k = choose|k: int| 0 <= k < out.len() && out[k] == other;
            if k == i {
                assert(subs[n] == other);
            } else {
                assert(subs[k] == other);
            }
        }
        if forall|i: int, j: int|
            0 <= i < j < subs.len() ==> (#[trigger] subs[i]).subscription_id != (
            #[trigger] subs[j]).subscription_id {
            assert forall|k: int| 0 <= k < out.len() implies (
            #[trigger] out[k]).subscription_id != id by {
                if k == i {
                    assert(subs[i].subscription_id != subs[n].subscription_id);
                } else if k < i {
                    assert(subs[k].subscription_id != subs[i].subscription_id);
                } else {
                    assert(subs[i].subscription_id != subs[k].subscription_id);
                }
            }
        }
    }
}

proof fn lemma_subscriber_at(subs: Seq<SubscriberView>, id: Seq<char>)
    ensures
        match subscriber_at(subs, id) {
            Some(i) => 0 <= i < subs.len() && subs[i].subscription_id == id,
            None => forall|i: int|
                0 <= i < subs.len() ==> (#[trigger] subs[i]).subscription_id != id,
        },
    decreases subs.len(),
{
    if subs.len() > 0 {
        let init = subs.drop_last();
        lemma_subscriber_at(init, id);
        if subscriber_at(init, id) is None {
            assert forall|i: int| 0 <= i < subs.len() && subs.last().subscription_id != id implies (
            #[trigger] subs[i]).subscription_id != id by {
                if i < init.len() {
                    assert(init[i].subscription_id != id);
                }
            }
        }
    }
}

/// What happens in one session changes no other.
pub proof fn law_sessions_are_apart(
    sessions: Entries<SessionView>,
    session_id: Seq<char>,
    state: SessionView,
    other: Seq<char>,
)
    requires
        distinct_keys(sessions),
        other != session_id,
    ensures
        session_or_fresh(entries_with(sessions, session_id, state), other) == session_or_fresh(
            sessions,
            other,
        ),
        session_or_fresh(entries_with(sessions, session_id, state), session_id) == state,
{
    crate::text_map::lemma_with(sessions, session_id, state);
    let now = entries_with(sessions, session_id, state);
    assert(as_map(now).contains_key(other) == as_map(sessions).contains_key(other));
    assert(as_map(now).contains_key(session_id));
}

/// The prompts that a session is said to have pending are the ones that its snapshot and
/// its subscribers are shown, at the next revision; all else stays.
pub proof fn law_pending_prompts_are_shown(
    state: SessionView,
    views: Seq<JsonView>,
    host_epoch: Seq<char>,
    i: int,
)
    requires
        state.snapshot.projection_revision < u64::MAX,
        0 <= i < state.subscribers.len(),
    ensures
        ({
            let next = with_pending(state.snapshot, views);
            let sent = deliveries(
                pending_broadcast(state.snapshot, views),
                host_epoch,
                state.subscribers,
            );
            &&& next.interactions_pending == views
            &&& next.projection_revision == state.snapshot.projection_revision + 1
            &&& next.session_id == state.snapshot.session_id
            &&& next.status == state.snapshot.status
            &&& next.root_turn == state.snapshot.root_turn
            &&& next.queue == state.snapshot.queue
            &&& sent[i].subscription_id == state.subscribers[i].subscription_id
            &&& sent[i].frame == (SubscriptionFrameView::SessionProjection {
                host_epoch,
                subscription_id: state.subscribers[i].subscription_id,
                sequence: state.subscribers[i].next_sequence,
                snapshot: next.json(),
            })
        }),
{
}

/// A subscription that is closed leaves every session, whose snapshot and whose other
/// subscribers stay, and its client is told of it under its own id, in the host's epoch and
/// with the reason.
pub proof fn law_closing_ends_one_subscription(
    sessions: Entries<SessionView>,
    id: Seq<char>,
    other: SubscriberView,
    host_epoch: Seq<char>,
    reason: ClosedReason,
    i: int,
)
    requires
        0 <= i < sessions.len(),
        other.subscription_id != id,
    ensures
        without_subscription(sessions, id).len() == sessions.len(),
        without_subscription(sessions, id)[i].0 == sessions[i].0,
        without_subscription(sessions, id)[i].1.snapshot == sessions[i].1.snapshot,
        without_subscription(sessions, id)[i].1.subscribers.contains(other)
            <==> sessions[i].1.subscribers.contains(other),
        !subscribed(sessions, id) ==> without_subscription(sessions, id)[i] == sessions[i],
        (exists|k: int|
            0 <= k < sessions[i].1.subscribers.len() && (
            #[trigger] sessions[i].1.subscribers[k]).subscription_id == id) ==> {
            &&& subscribed(sessions, id)
            &&& without_subscription(sessions, id)[i].1.subscribers.len()
                == sessions[i].1.subscribers.len() - 1
        },
        notice(id, host_epoch, reason).subscription_id == id,
        notice(id, host_epoch, reason).frame matches SubscriptionFrameView::Closed {
            host_epoch: e,
            subscription_id,
            reason: why,
        } && e == host_epoch && subscription_id == id && why == reason,
{
    law_detaching_takes_one_subscriber(sessions[i].1.subscribers, id, other);
    lemma_subscriber_at(sessions[i].1.subscribers, id);
    if !subscribed(sessions, id) {
        assert(subscriber_at(sessions[i].1.subscribers, id) is None);
    }
}

} // verus!
