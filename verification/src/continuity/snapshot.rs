//! The canonical, resumable projection of a session, capped at
//! [`MAX_SNAPSHOT_BYTES`] (56 KiB).

use crate::json::Field;
use crate::json::Json;
use crate::json::JsonView;
use crate::json::ObjectBuilder;
use crate::json::items_view;
use crate::json::opt;
use crate::json::ordered_text;
use crate::json::present;
use crate::json::sound;
use crate::schema::clone_jsons;
use crate::schema::clone_opt_json;
use crate::schema::from_jsons;
use crate::schema::from_nullable;
use crate::schema::has_only_keys;
use crate::schema::items_at;
use crate::schema::key_views;
use crate::schema::keys_ascend;
use crate::schema::lemma_lookup;
use crate::schema::lemma_only_keys;
use crate::schema::lemma_sound_object;
use crate::schema::lemma_step_ascends;
use crate::schema::member_at;
use crate::schema::null_or;
use crate::schema::only_keys;
use crate::schema::optional;
use crate::schema::read_items;
use crate::schema::read_opt_json;
use crate::schema::read_u32;
use crate::schema::read_u64;
use crate::schema::u32_at;
use crate::schema::u64_at;
use crate::text::lt_at;
use crate::text::text_lt;
use vstd::utf8::encode_utf8;
use crate::json::tree;
use crate::schema::listed_members;
use crate::schema::struct_form;
use vstd::prelude::*;

verus! {

pub const SNAPSHOT_SCHEMA_VERSION: u32 = 3;

/// Maximum serialized size of a snapshot on the wire.
pub const MAX_SNAPSHOT_BYTES: usize = 57344;

/// The messages that wait for a turn.
#[derive(Debug, PartialEq)]
pub struct MessageQueueProjection {
    pub queue_revision: u64,
    /// Messages injected into the current turn.
    pub steering: Vec<Json>,
    /// Messages queued for the next turn.
    pub followup: Vec<Json>,
}

/// What a [`MessageQueueProjection`] says.
pub struct MessageQueueProjectionView {
    pub queue_revision: u64,
    pub steering: Seq<JsonView>,
    pub followup: Seq<JsonView>,
}

impl View for MessageQueueProjection {
    type V = MessageQueueProjectionView;

    open spec fn view(&self) -> MessageQueueProjectionView {
        MessageQueueProjectionView {
            queue_revision: self.queue_revision,
            steering: items_view(self.steering@),
            followup: items_view(self.followup@),
        }
    }
}

impl Clone for MessageQueueProjection {
    fn clone(&self) -> (r: Self)
        ensures
            r@ == self@,
    {
        MessageQueueProjection {
            queue_revision: self.queue_revision,
            steering: clone_jsons(&self.steering),
            followup: clone_jsons(&self.followup),
        }
    }
}

impl MessageQueueProjectionView {
    /// The members of the JSON object, in key order.
    pub open spec fn fields(self) -> Seq<Field> {
        Seq::empty()
            .push(("followup"@, Some(JsonView::Array(self.followup))))
            .push(("queueRevision"@, Some(JsonView::Number(self.queue_revision as int))))
            .push(("steering"@, Some(JsonView::Array(self.steering))))
    }

    pub open spec fn json(self) -> JsonView {
        JsonView::Object(present(self.fields()))
    }

    /// The only keys the object may have.
    pub open spec fn keys() -> Seq<Seq<char>> {
        seq!["followup"@, "queueRevision"@, "steering"@]
    }

    /// The members in the order of declaration.
    pub open spec fn order() -> Seq<Seq<char>> {
        seq!["queueRevision"@, "steering"@, "followup"@]
    }

    /// What the JSON value `v` says; `None` when it is neither such an object nor a list
    /// of its members.
    pub open spec fn of_json(v: JsonView) -> Option<MessageQueueProjectionView> {
        MessageQueueProjectionView::of_object(struct_form(v, MessageQueueProjectionView::order(), 3))
    }

    /// What the JSON object `v` says; `None` when it is no such object.
    pub open spec fn of_object(v: JsonView) -> Option<MessageQueueProjectionView> {
        let queue_revision = u64_at(v, "queueRevision"@);
        let steering = items_at(v, "steering"@);
        let followup = items_at(v, "followup"@);
        if only_keys(v, MessageQueueProjectionView::keys()) && queue_revision is Some && steering is Some && followup is Some {
            Some(
                MessageQueueProjectionView {
                    queue_revision: queue_revision->0,
                    steering: steering->0,
                    followup: followup->0,
                },
            )
        } else {
            None
        }
    }

    proof fn lemma_keys(self)
        ensures
            keys_ascend(self.fields()),
    {
        assert(text_lt("followup"@, "queueRevision"@)) by {
            reveal_strlit("followup");
            reveal_strlit("queueRevision");
            assert(lt_at("followup"@, "queueRevision"@, 0));
        };
        assert(text_lt("queueRevision"@, "steering"@)) by {
            reveal_strlit("queueRevision");
            reveal_strlit("steering");
            assert(lt_at("queueRevision"@, "steering"@, 0));
        };
        lemma_step_ascends(self.fields());
    }

    /// Reading what was written gives the same value back.
    pub proof fn lemma_round_trip(self)
        ensures
            MessageQueueProjectionView::of_json(self.json()) == Some(self),
            self.json().get("followup"@) == (Some(JsonView::Array(self.followup))),
            self.json().get("queueRevision"@) == (Some(JsonView::Number(self.queue_revision as int))),
            self.json().get("steering"@) == (Some(JsonView::Array(self.steering))),
    {
        let f = self.fields();
        self.lemma_keys();
        assert(self.json().get("followup"@) == Some(JsonView::Array(self.followup))) by {
            lemma_lookup(f, 0);
        };
        assert(self.json().get("queueRevision"@) == Some(JsonView::Number(self.queue_revision as int))) by {
            lemma_lookup(f, 1);
        };
        assert(self.json().get("steering"@) == Some(JsonView::Array(self.steering))) by {
            lemma_lookup(f, 2);
        };
        assert(MessageQueueProjectionView::keys()[0] == "followup"@);
        assert(MessageQueueProjectionView::keys()[1] == "queueRevision"@);
        assert(MessageQueueProjectionView::keys()[2] == "steering"@);
        lemma_only_keys(f, MessageQueueProjectionView::keys());
    }

    /// Every embedded JSON value fits an object nested `n` levels deep.
    pub open spec fn embeds_sound(self, n: int) -> bool {
        &&& sound(JsonView::Array(self.steering), n - 1)
        &&& sound(JsonView::Array(self.followup), n - 1)
    }

    /// The JSON object reads back from its text.
    pub proof fn lemma_sound(self, n: int)
        requires
            n >= 2,
            self.embeds_sound(n),
        ensures
            sound(self.json(), n),
    {
        self.lemma_keys();
        lemma_sound_object(self.fields(), n);
    }
}

impl MessageQueueProjection {
    /// The JSON object for this value.
    pub fn to_json(&self) -> (r: Json)
        ensures
            r@ == self@.json(),
    {
        let mut b = ObjectBuilder::new();
        b.put("followup", from_jsons(&self.followup));
        b.put("queueRevision", Json::Uint(self.queue_revision));
        b.put("steering", from_jsons(&self.steering));
        assert(b.fields() == self@.fields());
        b.build()
    }

    /// Reads the value back from its JSON object, or from a list of its members in the
    /// order of declaration; unknown members are refused.
    pub fn from_json(v: &Json) -> (r: Option<MessageQueueProjection>)
        ensures
            match r {
                Some(x) => MessageQueueProjectionView::of_json(v@) == Some(x@),
                None => MessageQueueProjectionView::of_json(v@) is None,
            },
    {
        let names: [&str; 3] = ["queueRevision", "steering", "followup"];
        assert(key_views(names@) =~= MessageQueueProjectionView::order());
        match listed_members(v, &names, 3) {
            Some(o) => MessageQueueProjection::from_object(&o),
            None => MessageQueueProjection::from_object(v),
        }
    }

    fn from_object(v: &Json) -> (r: Option<MessageQueueProjection>)
        ensures
            match r {
                Some(x) => MessageQueueProjectionView::of_object(v@) == Some(x@),
                None => MessageQueueProjectionView::of_object(v@) is None,
            },
    {
        let keys: [&str; 3] = ["followup", "queueRevision", "steering"];
        assert(key_views(keys@) =~= MessageQueueProjectionView::keys());
        if !has_only_keys(v, &keys) {
            return None;
        }
        let queue_revision = match read_u64(v, "queueRevision") {
            Some(x) => x,
            None => return None,
        };
        let steering = match read_items(v, "steering") {
            Some(x) => x,
            None => return None,
        };
        let followup = match read_items(v, "followup") {
            Some(x) => x,
            None => return None,
        };
        Some(MessageQueueProjection { queue_revision, steering, followup })
    }
}

impl MessageQueueProjectionView {
    /// The members of the JSON object in the order of declaration.
    pub open spec fn declared_fields(self) -> Seq<Field> {
        Seq::empty()
            .push(("queueRevision"@, Some(JsonView::Number(self.queue_revision as int))))
            .push(("steering"@, Some(tree(JsonView::Array(self.steering)))))
            .push(("followup"@, Some(tree(JsonView::Array(self.followup)))))
    }

    pub open spec fn declared_json(self) -> JsonView {
        JsonView::Object(present(self.declared_fields()))
    }
}

impl MessageQueueProjection {
    /// The JSON object with its members in the order of declaration.
    pub fn to_declared_json(&self) -> (r: Json)
        ensures
            r@ == self@.declared_json(),
    {
        let mut b = ObjectBuilder::new();
        b.put("queueRevision", Json::Uint(self.queue_revision));
        b.put("steering", from_jsons(&self.steering).to_tree());
        b.put("followup", from_jsons(&self.followup).to_tree());
        assert(b.fields() == self@.declared_fields());
        b.build()
    }
}

impl MessageQueueProjectionView {
    /// The queue that holds nothing.
    pub open spec fn nothing() -> MessageQueueProjectionView {
        MessageQueueProjectionView {
            queue_revision: 0,
            steering: Seq::empty(),
            followup: Seq::empty(),
        }
    }
}

impl Default for MessageQueueProjection {
    fn default() -> (r: Self)
        ensures
            r@ == MessageQueueProjectionView::nothing(),
    {
        let r = MessageQueueProjection {
            queue_revision: 0,
            steering: Vec::new(),
            followup: Vec::new(),
        };
        assert(r@.steering =~= Seq::empty());
        assert(r@.followup =~= Seq::empty());
        r
    }
}

/// The canonical, resumable projection of a session: the single source of truth a
/// client re-syncs to after any disconnection.
#[derive(Debug, PartialEq)]
pub struct SessionContinuitySnapshot {
    pub schema_version: u32,
    pub session_id: String,
    /// Strictly increasing on every canonical transition.
    pub projection_revision: u64,
    /// Session status label.
    pub status: String,
    /// The active or terminal turn; none when idle.
    pub root_turn: Option<Json>,
    pub queue: MessageQueueProjection,
    /// Pending permission interactions.
    pub interactions_pending: Vec<Json>,
}

/// What a [`SessionContinuitySnapshot`] says.
pub struct SessionContinuitySnapshotView {
    pub schema_version: u32,
    pub session_id: Seq<char>,
    pub projection_revision: u64,
    pub status: Seq<char>,
    pub root_turn: Option<JsonView>,
    pub queue: MessageQueueProjectionView,
    pub interactions_pending: Seq<JsonView>,
}

impl View for SessionContinuitySnapshot {
    type V = SessionContinuitySnapshotView;

    open spec fn view(&self) -> SessionContinuitySnapshotView {
        SessionContinuitySnapshotView {
            schema_version: self.schema_version,
            session_id: self.session_id@,
            projection_revision: self.projection_revision,
            status: self.status@,
            root_turn: opt(self.root_turn),
            queue: self.queue@,
            interactions_pending: items_view(self.interactions_pending@),
        }
    }
}

impl Clone for SessionContinuitySnapshot {
    fn clone(&self) -> (r: Self)
        ensures
            r@ == self@,
    {
        SessionContinuitySnapshot {
            schema_version: self.schema_version,
            session_id: self.session_id.clone(),
            projection_revision: self.projection_revision,
            status: self.status.clone(),
            root_turn: clone_opt_json(&self.root_turn),
            queue: self.queue.clone(),
            interactions_pending: clone_jsons(&self.interactions_pending),
        }
    }
}

impl SessionContinuitySnapshotView {
    /// The members of the JSON object, in key order.
    pub open spec fn fields(self) -> Seq<Field> {
        Seq::empty()
            .push(("interactionsPending"@, Some(JsonView::Array(self.interactions_pending))))
            .push(("projectionRevision"@, Some(JsonView::Number(self.projection_revision as int))))
            .push(("queue"@, Some(self.queue.json())))
            .push(("rootTurn"@, Some(null_or(self.root_turn))))
            .push(("schemaVersion"@, Some(JsonView::Number(self.schema_version as int))))
            .push(("sessionId"@, Some(JsonView::Text(self.session_id))))
            .push(("status"@, Some(JsonView::Text(self.status))))
    }

    pub open spec fn json(self) -> JsonView {
        JsonView::Object(present(self.fields()))
    }

    /// No optional member is the JSON value `null`, which reads back as absent.
    pub open spec fn lossless(self) -> bool {
        &&& self.root_turn != Some(JsonView::Null)
    }

    /// The only keys the object may have.
    pub open spec fn keys() -> Seq<Seq<char>> {
        seq!["interactionsPending"@, "projectionRevision"@, "queue"@, "rootTurn"@, "schemaVersion"@, "sessionId"@, "status"@]
    }

    /// The members in the order of declaration.
    pub open spec fn order() -> Seq<Seq<char>> {
        seq!["schemaVersion"@, "sessionId"@, "projectionRevision"@, "status"@, "rootTurn"@, "queue"@, "interactionsPending"@]
    }

    /// What the JSON value `v` says; `None` when it is neither such an object nor a list
    /// of its members.
    pub open spec fn of_json(v: JsonView) -> Option<SessionContinuitySnapshotView> {
        SessionContinuitySnapshotView::of_object(struct_form(v, SessionContinuitySnapshotView::order(), 7))
    }

    /// What the JSON object `v` says; `None` when it is no such object.
    pub open spec fn of_object(v: JsonView) -> Option<SessionContinuitySnapshotView> {
        let schema_version = u32_at(v, "schemaVersion"@);
        let session_id = v.text_at("sessionId"@);
        let projection_revision = u64_at(v, "projectionRevision"@);
        let status = v.text_at("status"@);
        let root_turn = Some(optional(v, "rootTurn"@));
        let queue = member_at(v, "queue"@, |j: JsonView| MessageQueueProjectionView::of_json(j));
        let interactions_pending = items_at(v, "interactionsPending"@);
        if only_keys(v, SessionContinuitySnapshotView::keys()) && schema_version is Some && session_id is Some && projection_revision is Some && status is Some && queue is Some && interactions_pending is Some {
            Some(
                SessionContinuitySnapshotView {
                    schema_version: schema_version->0,
                    session_id: session_id->0,
                    projection_revision: projection_revision->0,
                    status: status->0,
                    root_turn: root_turn->0,
                    queue: queue->0,
                    interactions_pending: interactions_pending->0,
                },
            )
        } else {
            None
        }
    }

    proof fn lemma_keys(self)
        ensures
            keys_ascend(self.fields()),
    {
        assert(text_lt("interactionsPending"@, "projectionRevision"@)) by {
            reveal_strlit("interactionsPending");
            reveal_strlit("projectionRevision");
            assert(lt_at("interactionsPending"@, "projectionRevision"@, 0));
        };
        assert(text_lt("projectionRevision"@, "queue"@)) by {
            reveal_strlit("projectionRevision");
            reveal_strlit("queue");
            assert(lt_at("projectionRevision"@, "queue"@, 0));
        };
        assert(text_lt("queue"@, "rootTurn"@)) by {
            reveal_strlit("queue");
            reveal_strlit("rootTurn");
            assert(lt_at("queue"@, "rootTurn"@, 0));
        };
        assert(text_lt("rootTurn"@, "schemaVersion"@)) by {
            reveal_strlit("rootTurn");
            reveal_strlit("schemaVersion");
            assert(lt_at("rootTurn"@, "schemaVersion"@, 0));
        };
        assert(text_lt("schemaVersion"@, "sessionId"@)) by {
            reveal_strlit("schemaVersion");
            reveal_strlit("sessionId");
            assert(lt_at("schemaVersion"@, "sessionId"@, 1));
        };
        assert(text_lt("sessionId"@, "status"@)) by {
            reveal_strlit("sessionId");
            reveal_strlit("status");
            assert(lt_at("sessionId"@, "status"@, 1));
        };
        lemma_step_ascends(self.fields());
    }

    /// Reading what was written gives the same value back.
    pub proof fn lemma_round_trip(self)
        requires
            self.lossless(),
        ensures
            SessionContinuitySnapshotView::of_json(self.json()) == Some(self),
            self.json().get("interactionsPending"@) == (Some(JsonView::Array(self.interactions_pending))),
            self.json().get("projectionRevision"@) == (Some(JsonView::Number(self.projection_revision as int))),
            self.json().get("queue"@) == (Some(self.queue.json())),
            self.json().get("rootTurn"@) == (Some(null_or(self.root_turn))),
            self.json().get("schemaVersion"@) == (Some(JsonView::Number(self.schema_version as int))),
            self.json().get("sessionId"@) == (Some(JsonView::Text(self.session_id))),
            self.json().get("status"@) == (Some(JsonView::Text(self.status))),
    {
        let f = self.fields();
        self.lemma_keys();
        assert(self.json().get("interactionsPending"@) == Some(JsonView::Array(self.interactions_pending))) by {
            lemma_lookup(f, 0);
        };
        assert(self.json().get("projectionRevision"@) == Some(JsonView::Number(self.projection_revision as int))) by {
            lemma_lookup(f, 1);
        };
        assert(self.json().get("queue"@) == Some(self.queue.json())) by {
            lemma_lookup(f, 2);
        };
        assert(self.json().get("rootTurn"@) == Some(null_or(self.root_turn))) by {
            lemma_lookup(f, 3);
        };
        assert(self.json().get("schemaVersion"@) == Some(JsonView::Number(self.schema_version as int))) by {
            lemma_lookup(f, 4);
        };
        assert(self.json().get("sessionId"@) == Some(JsonView::Text(self.session_id))) by {
            lemma_lookup(f, 5);
        };
        assert(self.json().get("status"@) == Some(JsonView::Text(self.status))) by {
            lemma_lookup(f, 6);
        };
        assert(SessionContinuitySnapshotView::keys()[0] == "interactionsPending"@);
        assert(SessionContinuitySnapshotView::keys()[1] == "projectionRevision"@);
        assert(SessionContinuitySnapshotView::keys()[2] == "queue"@);
        assert(SessionContinuitySnapshotView::keys()[3] == "rootTurn"@);
        assert(SessionContinuitySnapshotView::keys()[4] == "schemaVersion"@);
        assert(SessionContinuitySnapshotView::keys()[5] == "sessionId"@);
        assert(SessionContinuitySnapshotView::keys()[6] == "status"@);
        lemma_only_keys(f, SessionContinuitySnapshotView::keys());
        self.queue.lemma_round_trip();
    }

    /// Every embedded JSON value fits an object nested `n` levels deep.
    pub open spec fn embeds_sound(self, n: int) -> bool {
        &&& (self.root_turn matches Some(x) ==> sound(x, n - 1))
        &&& self.queue.embeds_sound(n - 1)
        &&& sound(JsonView::Array(self.interactions_pending), n - 1)
    }

    /// The JSON object reads back from its text.
    pub proof fn lemma_sound(self, n: int)
        requires
            n >= 3,
            self.embeds_sound(n),
        ensures
            sound(self.json(), n),
    {
        self.lemma_keys();
        self.queue.lemma_sound(n - 1);
        lemma_sound_object(self.fields(), n);
    }
}

impl SessionContinuitySnapshot {
    /// The JSON object for this value.
    pub fn to_json(&self) -> (r: Json)
        ensures
            r@ == self@.json(),
    {
        let mut b = ObjectBuilder::new();
        b.put("interactionsPending", from_jsons(&self.interactions_pending));
        b.put("projectionRevision", Json::Uint(self.projection_revision));
        b.put("queue", self.queue.to_json());
        b.put("rootTurn", from_nullable(&self.root_turn));
        b.put("schemaVersion", Json::Uint(self.schema_version as u64));
        b.put_text("sessionId", self.session_id.as_str());
        b.put_text("status", self.status.as_str());
        assert(b.fields() == self@.fields());
        b.build()
    }

    /// Reads the value back from its JSON object, or from a list of its members in the
    /// order of declaration; unknown members are refused.
    pub fn from_json(v: &Json) -> (r: Option<SessionContinuitySnapshot>)
        ensures
            match r {
                Some(x) => SessionContinuitySnapshotView::of_json(v@) == Some(x@),
                None => SessionContinuitySnapshotView::of_json(v@) is None,
            },
    {
        let names: [&str; 7] = ["schemaVersion", "sessionId", "projectionRevision", "status", "rootTurn", "queue", "interactionsPending"];
        assert(key_views(names@) =~= SessionContinuitySnapshotView::order());
        match listed_members(v, &names, 7) {
            Some(o) => SessionContinuitySnapshot::from_object(&o),
            None => SessionContinuitySnapshot::from_object(v),
        }
    }

    fn from_object(v: &Json) -> (r: Option<SessionContinuitySnapshot>)
        ensures
            match r {
                Some(x) => SessionContinuitySnapshotView::of_object(v@) == Some(x@),
                None => SessionContinuitySnapshotView::of_object(v@) is None,
            },
    {
        let keys: [&str; 7] = ["interactionsPending", "projectionRevision", "queue", "rootTurn", "schemaVersion", "sessionId", "status"];
        assert(key_views(keys@) =~= SessionContinuitySnapshotView::keys());
        if !has_only_keys(v, &keys) {
            return None;
        }
        let schema_version = match read_u32(v, "schemaVersion") {
            Some(x) => x,
            None => return None,
        };
        let session_id = match v.text_at("sessionId") {
            Some(x) => x,
            None => return None,
        };
        let projection_revision = match read_u64(v, "projectionRevision") {
            Some(x) => x,
            None => return None,
        };
        let status = match v.text_at("status") {
            Some(x) => x,
            None => return None,
        };
        let root_turn = read_opt_json(v, "rootTurn");
        let queue = match v.get("queue") {
            Some(j) => match MessageQueueProjection::from_json(j) {
                Some(x) => x,
                None => return None,
            },
            None => return None,
        };
        let interactions_pending = match read_items(v, "interactionsPending") {
            Some(x) => x,
            None => return None,
        };
        Some(SessionContinuitySnapshot { schema_version, session_id, projection_revision, status, root_turn, queue, interactions_pending })
    }
}

impl SessionContinuitySnapshotView {
    /// The members of the JSON object in the order of declaration.
    pub open spec fn declared_fields(self) -> Seq<Field> {
        Seq::empty()
            .push(("schemaVersion"@, Some(JsonView::Number(self.schema_version as int))))
            .push(("sessionId"@, Some(JsonView::Text(self.session_id))))
            .push(("projectionRevision"@, Some(JsonView::Number(self.projection_revision as int))))
            .push(("status"@, Some(JsonView::Text(self.status))))
            .push(("rootTurn"@, Some(tree(null_or(self.root_turn)))))
            .push(("queue"@, Some(self.queue.declared_json())))
            .push(("interactionsPending"@, Some(tree(JsonView::Array(self.interactions_pending)))))
    }

    pub open spec fn declared_json(self) -> JsonView {
        JsonView::Object(present(self.declared_fields()))
    }
}

impl SessionContinuitySnapshot {
    /// The JSON object with its members in the order of declaration.
    pub fn to_declared_json(&self) -> (r: Json)
        ensures
            r@ == self@.declared_json(),
    {
        let mut b = ObjectBuilder::new();
        b.put("schemaVersion", Json::Uint(self.schema_version as u64));
        b.put_text("sessionId", self.session_id.as_str());
        b.put("projectionRevision", Json::Uint(self.projection_revision));
        b.put_text("status", self.status.as_str());
        b.put("rootTurn", from_nullable(&self.root_turn).to_tree());
        b.put("queue", self.queue.to_declared_json());
        b.put("interactionsPending", from_jsons(&self.interactions_pending).to_tree());
        assert(b.fields() == self@.declared_fields());
        b.build()
    }
}

/// The snapshot of a session that nothing has happened in.
pub open spec fn fresh_snapshot(session_id: Seq<char>) -> SessionContinuitySnapshotView {
    SessionContinuitySnapshotView {
        schema_version: SNAPSHOT_SCHEMA_VERSION,
        session_id,
        projection_revision: 0,
        status: "ready"@,
        root_turn: None,
        queue: MessageQueueProjectionView::nothing(),
        interactions_pending: Seq::empty(),
    }
}

/// The serialized size of a snapshot.
pub open spec fn snapshot_bytes(s: SessionContinuitySnapshotView) -> nat {
    encode_utf8(ordered_text(s.declared_json())).len()
}

impl SessionContinuitySnapshot {
    pub fn fresh(session_id: &str) -> (r: Self)
        ensures
            r@ == fresh_snapshot(session_id@),
    {
        let r = SessionContinuitySnapshot {
            schema_version: SNAPSHOT_SCHEMA_VERSION,
            session_id: session_id.to_owned(),
            projection_revision: 0,
            status: "ready".to_owned(),
            root_turn: None,
            queue: MessageQueueProjection::default(),
            interactions_pending: Vec::new(),
        };
        assert(r@.interactions_pending =~= Seq::empty());
        r
    }

    /// Serialized byte length (for the cap check).
    pub fn encoded_bytes(&self) -> (r: usize)
        ensures
            r == snapshot_bytes(self@),
    {
        let text = self.to_declared_json().to_ordered_text();
        text.as_str().as_bytes().len()
    }

    pub fn over_cap(&self) -> (r: bool)
        ensures
            r == (snapshot_bytes(self@) > MAX_SNAPSHOT_BYTES),
    {
        self.encoded_bytes() > MAX_SNAPSHOT_BYTES
    }
}

/// A snapshot is over the cap exactly if its text takes more than 56 kibibytes.
pub proof fn law_snapshots_are_capped(s: &SessionContinuitySnapshot, r: bool)
    requires
        call_ensures(SessionContinuitySnapshot::over_cap, (s,), r),
    ensures
        r <==> encode_utf8(ordered_text(s@.declared_json())).len() > 56 * 1024,
        SNAPSHOT_SCHEMA_VERSION == 3,
{
}

impl MessageQueueProjectionView {
    /// Only these members are known: an object with any other is refused.
    pub proof fn law_schema_is_closed(members: Seq<crate::json::Member>, i: int)
        requires
            MessageQueueProjectionView::of_json(JsonView::Object(members)) is Some,
            0 <= i < members.len(),
        ensures
            members[i].0 == "followup"@
                || members[i].0 == "queueRevision"@
                || members[i].0 == "steering"@,
    {
        let keys = MessageQueueProjectionView::keys();
        let key = members[i].0;
        assert(keys.contains(key));
        let k = choose|k: int| 0 <= k < keys.len() && keys[k] == key;
        assert(keys.len() == 3);
    }
}

impl SessionContinuitySnapshotView {
    /// Only these members are known: an object with any other is refused.
    pub proof fn law_schema_is_closed(members: Seq<crate::json::Member>, i: int)
        requires
            SessionContinuitySnapshotView::of_json(JsonView::Object(members)) is Some,
            0 <= i < members.len(),
        ensures
            members[i].0 == "interactionsPending"@
                || members[i].0 == "projectionRevision"@
                || members[i].0 == "queue"@
                || members[i].0 == "rootTurn"@
                || members[i].0 == "schemaVersion"@
                || members[i].0 == "sessionId"@
                || members[i].0 == "status"@,
    {
        let keys = SessionContinuitySnapshotView::keys();
        let key = members[i].0;
        assert(keys.contains(key));
        let k = choose|k: int| 0 <= k < keys.len() && keys[k] == key;
        assert(keys.len() == 7);
    }
}

impl MessageQueueProjectionView {
    /// The members that are written, each in its place in the order of declaration.
    pub proof fn law_declared_members(self)
        ensures
            self.declared_fields().len() == 3,
            self.declared_fields()[0] == ("queueRevision"@, Some(JsonView::Number(self.queue_revision as int))),
            self.declared_fields()[1] == ("steering"@, Some(tree(JsonView::Array(self.steering)))),
            self.declared_fields()[2] == ("followup"@, Some(tree(JsonView::Array(self.followup)))),
    {
    }
}

impl SessionContinuitySnapshotView {
    /// The members that are written, each in its place in the order of declaration.
    pub proof fn law_declared_members(self)
        ensures
            self.declared_fields().len() == 7,
            self.declared_fields()[0] == ("schemaVersion"@, Some(JsonView::Number(self.schema_version as int))),
            self.declared_fields()[1] == ("sessionId"@, Some(JsonView::Text(self.session_id))),
            self.declared_fields()[2] == ("projectionRevision"@, Some(JsonView::Number(self.projection_revision as int))),
            self.declared_fields()[3] == ("status"@, Some(JsonView::Text(self.status))),
            self.declared_fields()[4] == ("rootTurn"@, Some(tree(null_or(self.root_turn)))),
            self.declared_fields()[5] == ("queue"@, Some(self.queue.declared_json())),
            self.declared_fields()[6] == ("interactionsPending"@, Some(tree(JsonView::Array(self.interactions_pending)))),
    {
    }
}

} // verus!
