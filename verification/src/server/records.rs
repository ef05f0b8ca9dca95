//! The durable rows that the host reads and writes: sessions, admissions and
//! continuation claims.

use crate::json::Field;
use crate::json::Json;
use crate::json::JsonView;
use crate::json::ObjectBuilder;
use crate::json::opt;
use crate::json::present;
use crate::schema::clone_opt_text;
use crate::schema::clone_opt_texts;
use crate::schema::clone_texts;
use crate::schema::from_opt_text;
use crate::schema::from_texts;
use crate::schema::opt_text_json;
use crate::schema::opt_texts;
use crate::schema::texts;
use crate::schema::texts_json;
use vstd::prelude::*;

verus! {

/// One session of the catalog. `revision` counts its committed updates.
#[derive(Debug, PartialEq)]
pub struct SessionRecord {
    pub session_id: String,
    pub name: String,
    pub labels: Vec<String>,
    pub revision: i64,
    pub is_archived: bool,
    pub cwd: String,
    pub config_json: String,
    pub read_marker: Option<String>,
    pub created_at: i64,
    pub updated_at: i64,
}

/// What a [`SessionRecord`] says.
pub struct SessionRecordView {
    pub session_id: Seq<char>,
    pub name: Seq<char>,
    pub labels: Seq<Seq<char>>,
    pub revision: i64,
    pub is_archived: bool,
    pub cwd: Seq<char>,
    pub config_json: Seq<char>,
    pub read_marker: Option<Seq<char>>,
    pub created_at: i64,
    pub updated_at: i64,
}

impl View for SessionRecord {
    type V = SessionRecordView;

    open spec fn view(&self) -> SessionRecordView {
        SessionRecordView {
            session_id: self.session_id@,
            name: self.name@,
            labels: texts(self.labels@),
            revision: self.revision,
            is_archived: self.is_archived,
            cwd: self.cwd@,
            config_json: self.config_json@,
            read_marker: opt(self.read_marker),
            created_at: self.created_at,
            updated_at: self.updated_at,
        }
    }
}

impl Clone for SessionRecord {
    fn clone(&self) -> (r: Self)
        ensures
            r@ == self@,
    {
        SessionRecord {
            session_id: self.session_id.clone(),
            name: self.name.clone(),
            labels: clone_texts(&self.labels),
            revision: self.revision,
            is_archived: self.is_archived,
            cwd: self.cwd.clone(),
            config_json: self.config_json.clone(),
            read_marker: clone_opt_text(&self.read_marker),
            created_at: self.created_at,
            updated_at: self.updated_at,
        }
    }
}

impl SessionRecordView {
    /// The members of the JSON object, in key order.
    pub open spec fn fields(self) -> Seq<Field> {
        Seq::empty()
            .push(("configJson"@, Some(JsonView::Text(self.config_json))))
            .push(("createdAt"@, Some(JsonView::Number(self.created_at as int))))
            .push(("cwd"@, Some(JsonView::Text(self.cwd))))
            .push(("isArchived"@, Some(JsonView::Bool(self.is_archived))))
            .push(("labels"@, Some(texts_json(self.labels))))
            .push(("name"@, Some(JsonView::Text(self.name))))
            .push(("readMarker"@, opt_text_json(self.read_marker)))
            .push(("revision"@, Some(JsonView::Number(self.revision as int))))
            .push(("sessionId"@, Some(JsonView::Text(self.session_id))))
            .push(("updatedAt"@, Some(JsonView::Number(self.updated_at as int))))
    }

    pub open spec fn json(self) -> JsonView {
        JsonView::Object(present(self.fields()))
    }
}

impl SessionRecord {
    /// The JSON object for this value.
    pub fn to_json(&self) -> (r: Json)
        ensures
            r@ == self@.json(),
    {
        let mut b = ObjectBuilder::new();
        b.put_text("configJson", self.config_json.as_str());
        b.put("createdAt", Json::Int(self.created_at));
        b.put_text("cwd", self.cwd.as_str());
        b.put("isArchived", Json::Bool(self.is_archived));
        b.put("labels", from_texts(&self.labels));
        b.put_text("name", self.name.as_str());
        b.put_opt("readMarker", from_opt_text(&self.read_marker));
        b.put("revision", Json::Int(self.revision));
        b.put_text("sessionId", self.session_id.as_str());
        b.put("updatedAt", Json::Int(self.updated_at));
        assert(b.fields() == self@.fields());
        b.build()
    }
}

/// What an update changes; absent members stay as they are.
#[derive(Debug, PartialEq)]
pub struct SessionPatch {
    pub name: Option<String>,
    pub labels: Option<Vec<String>>,
    pub cwd: Option<String>,
    pub config_json: Option<String>,
    pub read_marker: Option<String>,
    pub is_archived: Option<bool>,
}

/// What a [`SessionPatch`] says.
pub struct SessionPatchView {
    pub name: Option<Seq<char>>,
    pub labels: Option<Seq<Seq<char>>>,
    pub cwd: Option<Seq<char>>,
    pub config_json: Option<Seq<char>>,
    pub read_marker: Option<Seq<char>>,
    pub is_archived: Option<bool>,
}

impl View for SessionPatch {
    type V = SessionPatchView;

    open spec fn view(&self) -> SessionPatchView {
        SessionPatchView {
            name: opt(self.name),
            labels: opt_texts(self.labels),
            cwd: opt(self.cwd),
            config_json: opt(self.config_json),
            read_marker: opt(self.read_marker),
            is_archived: self.is_archived,
        }
    }
}

impl Clone for SessionPatch {
    fn clone(&self) -> (r: Self)
        ensures
            r@ == self@,
    {
        SessionPatch {
            name: clone_opt_text(&self.name),
            labels: clone_opt_texts(&self.labels),
            cwd: clone_opt_text(&self.cwd),
            config_json: clone_opt_text(&self.config_json),
            read_marker: clone_opt_text(&self.read_marker),
            is_archived: self.is_archived,
        }
    }
}

impl Default for SessionPatch {
    fn default() -> (r: Self)
        ensures
            r.name is None,
            r.labels is None,
            r.cwd is None,
            r.config_json is None,
            r.read_marker is None,
            r.is_archived is None,
    {
        SessionPatch {
            name: None,
            labels: None,
            cwd: None,
            config_json: None,
            read_marker: None,
            is_archived: None,
        }
    }
}

impl SessionPatchView {
    /// The patch that changes nothing.
    pub open spec fn nothing() -> SessionPatchView {
        SessionPatchView {
            name: None,
            labels: None,
            cwd: None,
            config_json: None,
            read_marker: None,
            is_archived: None,
        }
    }
}

/// What a revision-checked update came to.
#[derive(Debug)]
pub enum SessionUpdate {
    Committed(SessionRecord),
    RevisionConflict { expected: i64, current: i64 },
}

/// One link of a session's admission chain: a turn that was durably admitted.
#[derive(Debug, PartialEq)]
pub struct RootAdmissionRecord {
    pub session_id: String,
    pub turn_id: String,
    pub run_id: String,
    pub previous_root_turn_id: Option<String>,
    pub identity_json: String,
    pub admitted_at: i64,
    pub poisoned: bool,
}

/// What a [`RootAdmissionRecord`] says.
pub struct RootAdmissionRecordView {
    pub session_id: Seq<char>,
    pub turn_id: Seq<char>,
    pub run_id: Seq<char>,
    pub previous_root_turn_id: Option<Seq<char>>,
    pub identity_json: Seq<char>,
    pub admitted_at: i64,
    pub poisoned: bool,
}

impl View for RootAdmissionRecord {
    type V = RootAdmissionRecordView;

    open spec fn view(&self) -> RootAdmissionRecordView {
        RootAdmissionRecordView {
            session_id: self.session_id@,
            turn_id: self.turn_id@,
            run_id: self.run_id@,
            previous_root_turn_id: opt(self.previous_root_turn_id),
            identity_json: self.identity_json@,
            admitted_at: self.admitted_at,
            poisoned: self.poisoned,
        }
    }
}

impl Clone for RootAdmissionRecord {
    fn clone(&self) -> (r: Self)
        ensures
            r@ == self@,
    {
        RootAdmissionRecord {
            session_id: self.session_id.clone(),
            turn_id: self.turn_id.clone(),
            run_id: self.run_id.clone(),
            previous_root_turn_id: clone_opt_text(&self.previous_root_turn_id),
            identity_json: self.identity_json.clone(),
            admitted_at: self.admitted_at,
            poisoned: self.poisoned,
        }
    }
}

/// The durable claim that one run continues another from a given boundary.
#[derive(Debug, PartialEq)]
pub struct ContinuationClaim {
    pub claim_id: String,
    pub source_session_id: String,
    pub source_invocation_id: String,
    pub source_run_id: String,
    pub source_turn_id: String,
    pub source_event_high_water: i64,
    pub source_prefix_digest: String,
    pub boundary_digest: String,
    pub boundary_json: String,
    pub provider_projection_version: i64,
    pub provider_replay_digest: String,
    pub target_session_id: String,
    pub target_invocation_id: String,
    pub target_run_id: String,
    pub target_turn_id: String,
    pub target_run_header_json: String,
    pub claimed_at: i64,
    pub start_event_id: Option<String>,
    pub start_kind: Option<String>,
    pub protocol_version: i64,
}

/// What a [`ContinuationClaim`] says.
pub struct ContinuationClaimView {
    pub claim_id: Seq<char>,
    pub source_session_id: Seq<char>,
    pub source_invocation_id: Seq<char>,
    pub source_run_id: Seq<char>,
    pub source_turn_id: Seq<char>,
    pub source_event_high_water: i64,
    pub source_prefix_digest: Seq<char>,
    pub boundary_digest: Seq<char>,
    pub boundary_json: Seq<char>,
    pub provider_projection_version: i64,
    pub provider_replay_digest: Seq<char>,
    pub target_session_id: Seq<char>,
    pub target_invocation_id: Seq<char>,
    pub target_run_id: Seq<char>,
    pub target_turn_id: Seq<char>,
    pub target_run_header_json: Seq<char>,
    pub claimed_at: i64,
    pub start_event_id: Option<Seq<char>>,
    pub start_kind: Option<Seq<char>>,
    pub protocol_version: i64,
}

impl View for ContinuationClaim {
    type V = ContinuationClaimView;

    open spec fn view(&self) -> ContinuationClaimView {
        ContinuationClaimView {
            claim_id: self.claim_id@,
            source_session_id: self.source_session_id@,
            source_invocation_id: self.source_invocation_id@,
            source_run_id: self.source_run_id@,
            source_turn_id: self.source_turn_id@,
            source_event_high_water: self.source_event_high_water,
            source_prefix_digest: self.source_prefix_digest@,
            boundary_digest: self.boundary_digest@,
            boundary_json: self.boundary_json@,
            provider_projection_version: self.provider_projection_version,
            provider_replay_digest: self.provider_replay_digest@,
            target_session_id: self.target_session_id@,
            target_invocation_id: self.target_invocation_id@,
            target_run_id: self.target_run_id@,
            target_turn_id: self.target_turn_id@,
            target_run_header_json: self.target_run_header_json@,
            claimed_at: self.claimed_at,
            start_event_id: opt(self.start_event_id),
            start_kind: opt(self.start_kind),
            protocol_version: self.protocol_version,
        }
    }
}

impl Clone for ContinuationClaim {
    fn clone(&self) -> (r: Self)
        ensures
            r@ == self@,
    {
        ContinuationClaim {
            claim_id: self.claim_id.clone(),
            source_session_id: self.source_session_id.clone(),
            source_invocation_id: self.source_invocation_id.clone(),
            source_run_id: self.source_run_id.clone(),
            source_turn_id: self.source_turn_id.clone(),
            source_event_high_water: self.source_event_high_water,
            source_prefix_digest: self.source_prefix_digest.clone(),
            boundary_digest: self.boundary_digest.clone(),
            boundary_json: self.boundary_json.clone(),
            provider_projection_version: self.provider_projection_version,
            provider_replay_digest: self.provider_replay_digest.clone(),
            target_session_id: self.target_session_id.clone(),
            target_invocation_id: self.target_invocation_id.clone(),
            target_run_id: self.target_run_id.clone(),
            target_turn_id: self.target_turn_id.clone(),
            target_run_header_json: self.target_run_header_json.clone(),
            claimed_at: self.claimed_at,
            start_event_id: clone_opt_text(&self.start_event_id),
            start_kind: clone_opt_text(&self.start_kind),
            protocol_version: self.protocol_version,
        }
    }
}

impl SessionRecordView {
    /// The members of the JSON object, each under its own name.
    pub proof fn law_members(self)
        ensures
            self.json().get("configJson"@) == Some(JsonView::Text(self.config_json)),
            self.json().get("createdAt"@) == Some(JsonView::Number(self.created_at as int)),
            self.json().get("cwd"@) == Some(JsonView::Text(self.cwd)),
            self.json().get("isArchived"@) == Some(JsonView::Bool(self.is_archived)),
            self.json().get("labels"@) == Some(crate::schema::texts_json(self.labels)),
            self.json().get("name"@) == Some(JsonView::Text(self.name)),
            self.json().get("readMarker"@) == crate::schema::opt_text_json(self.read_marker),
            self.json().get("revision"@) == Some(JsonView::Number(self.revision as int)),
            self.json().get("sessionId"@) == Some(JsonView::Text(self.session_id)),
            self.json().get("updatedAt"@) == Some(JsonView::Number(self.updated_at as int)),
    {
        let f: Seq<crate::json::Field> = Seq::empty().push(("configJson"@, Some(JsonView::Text(self.config_json)))).push(("createdAt"@, Some(JsonView::Number(self.created_at as int)))).push(("cwd"@, Some(JsonView::Text(self.cwd)))).push(("isArchived"@, Some(JsonView::Bool(self.is_archived)))).push(("labels"@, Some(crate::schema::texts_json(self.labels)))).push(("name"@, Some(JsonView::Text(self.name)))).push(("readMarker"@, crate::schema::opt_text_json(self.read_marker))).push(("revision"@, Some(JsonView::Number(self.revision as int)))).push(("sessionId"@, Some(JsonView::Text(self.session_id)))).push(("updatedAt"@, Some(JsonView::Number(self.updated_at as int))));
        assert(crate::text::text_lt("configJson"@, "createdAt"@)) by {
            reveal_strlit("configJson");
            reveal_strlit("createdAt");
            assert(crate::text::lt_at("configJson"@, "createdAt"@, 1));
        };
        assert(crate::text::text_lt("createdAt"@, "cwd"@)) by {
            reveal_strlit("createdAt");
            reveal_strlit("cwd");
            assert(crate::text::lt_at("createdAt"@, "cwd"@, 1));
        };
        assert(crate::text::text_lt("cwd"@, "isArchived"@)) by {
            reveal_strlit("cwd");
            reveal_strlit("isArchived");
            assert(crate::text::lt_at("cwd"@, "isArchived"@, 0));
        };
        assert(crate::text::text_lt("isArchived"@, "labels"@)) by {
            reveal_strlit("isArchived");
            reveal_strlit("labels");
            assert(crate::text::lt_at("isArchived"@, "labels"@, 0));
        };
        assert(crate::text::text_lt("labels"@, "name"@)) by {
            reveal_strlit("labels");
            reveal_strlit("name");
            assert(crate::text::lt_at("labels"@, "name"@, 0));
        };
        assert(crate::text::text_lt("name"@, "readMarker"@)) by {
            reveal_strlit("name");
            reveal_strlit("readMarker");
            assert(crate::text::lt_at("name"@, "readMarker"@, 0));
        };
        assert(crate::text::text_lt("readMarker"@, "revision"@)) by {
            reveal_strlit("readMarker");
            reveal_strlit("revision");
            assert(crate::text::lt_at("readMarker"@, "revision"@, 2));
        };
        assert(crate::text::text_lt("revision"@, "sessionId"@)) by {
            reveal_strlit("revision");
            reveal_strlit("sessionId");
            assert(crate::text::lt_at("revision"@, "sessionId"@, 0));
        };
        assert(crate::text::text_lt("sessionId"@, "updatedAt"@)) by {
            reveal_strlit("sessionId");
            reveal_strlit("updatedAt");
            assert(crate::text::lt_at("sessionId"@, "updatedAt"@, 0));
        };
        crate::schema::lemma_step_ascends(f);
        crate::schema::lemma_lookup(f, 0);
        crate::schema::lemma_lookup(f, 1);
        crate::schema::lemma_lookup(f, 2);
        crate::schema::lemma_lookup(f, 3);
        crate::schema::lemma_lookup(f, 4);
        crate::schema::lemma_lookup(f, 5);
        crate::schema::lemma_lookup(f, 6);
        crate::schema::lemma_lookup(f, 7);
        crate::schema::lemma_lookup(f, 8);
        crate::schema::lemma_lookup(f, 9);
    }
}

} // verus!
