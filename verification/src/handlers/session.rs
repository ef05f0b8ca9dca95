//! Session lifecycle operations: create, catalog query, metadata, configuration
//! and cwd updates (optimistic concurrency), read marker, archive and remove.
//!
//! An operation runs in steps. Each step either replies or asks the store for
//! one thing; the store's answer leads to the next step.

use super::registry::Handler;
use crate::json::json_text;
use crate::json::present;
use crate::json::Json;
use crate::json::JsonView;
use crate::json::ObjectBuilder;
use crate::protocol::errors::OpErrorCode;
use crate::protocol::ops::SESSION_CATALOG_QUERY;
use crate::protocol::ops::SESSION_CONFIGURATION_UPDATE;
use crate::protocol::ops::SESSION_CREATE;
use crate::protocol::ops::SESSION_CWD_RELOCATE;
use crate::protocol::ops::SESSION_LIFECYCLE_SET;
use crate::protocol::ops::SESSION_METADATA_UPDATE;
use crate::protocol::ops::SESSION_READ_MARKER_SET;
use crate::protocol::ops::SESSION_REMOVE;
use crate::schema::i64_at;
use crate::schema::read_i64;
use crate::schema::texts;
use crate::server::dispatcher::fail;
use crate::server::dispatcher::Dispatcher;
use crate::server::dispatcher::Outcome;
use crate::server::dispatcher::OutcomeView;
use crate::server::records::SessionPatch;
use crate::server::records::SessionPatchView;
use crate::server::records::SessionRecord;
use crate::server::records::SessionRecordView;
use crate::server::records::SessionUpdate;
use crate::text::concat3;
use crate::text::str_eq;
use vstd::prelude::*;

verus! {

/// The session operations.
#[derive(Debug, Clone, Copy, PartialEq, Eq, Structural)]
pub enum SessionOp {
    Create,
    CatalogQuery,
    MetadataUpdate,
    ConfigurationUpdate,
    CwdRelocate,
    ReadMarkerSet,
    LifecycleSet,
    Remove,
}

/// What an operation does next.
#[derive(Debug)]
pub enum SessionStep {
    /// The operation is done.
    Reply(Outcome),
    /// Insert a new session.
    Create(SessionRecord),
    /// List all sessions.
    List,
    /// Read the session, then update it at the revision it has.
    Rebase { session_id: String, patch: SessionPatch },
    /// Update the session if it is at the expected revision.
    Update { session_id: String, expected: i64, patch: SessionPatch },
    /// Delete the session.
    Remove { session_id: String },
}

/// What the store answers; an error is a message.
#[derive(Debug)]
pub enum SessionReply {
    Created(Result<(), String>),
    Listed(Result<Vec<SessionRecord>, String>),
    Found(Result<Option<SessionRecord>, String>),
    Updated(Result<SessionUpdate, String>),
    Removed(Result<bool, String>),
}

/// What a [`SessionStep`] says.
pub enum StepView {
    Reply(OutcomeView),
    Create(SessionRecordView),
    List,
    Rebase { session_id: Seq<char>, patch: SessionPatchView },
    Update { session_id: Seq<char>, expected: i64, patch: SessionPatchView },
    Remove { session_id: Seq<char> },
}

impl View for SessionStep {
    type V = StepView;

    open spec fn view(&self) -> StepView {
        match *self {
            SessionStep::Reply(o) => StepView::Reply(o@),
            SessionStep::Create(r) => StepView::Create(r@),
            SessionStep::List => StepView::List,
            SessionStep::Rebase { session_id, patch } => StepView::Rebase {
                session_id: session_id@,
                patch: patch@,
            },
            SessionStep::Update { session_id, expected, patch } => StepView::Update {
                session_id: session_id@,
                expected,
                patch: patch@,
            },
            SessionStep::Remove { session_id } => StepView::Remove { session_id: session_id@ },
        }
    }
}

// ---------------------------------------------------------------------------
// Reading the input
// ---------------------------------------------------------------------------

/// The text of a member, or the empty text.
pub open spec fn text_or_empty(v: JsonView, key: Seq<char>) -> Seq<char> {
    match v.text_at(key) {
        Some(s) => s,
        None => Seq::empty(),
    }
}

/// The text of a member, or the empty text.
pub fn str_field(input: &Json, key: &str) -> (r: String)
    ensures
        r@ == text_or_empty(input@, key@),
{
    match input.text_at(key) {
        Some(s) => s,
        None => {
            let s = String::new();
            assert(s@ =~= Seq::empty());
            s
        },
    }
}

/// The items that are strings, in order.
pub open spec fn strings_of(items: Seq<JsonView>) -> Seq<Seq<char>>
    decreases items.len(),
{
    if items.len() == 0 {
        Seq::empty()
    } else {
        let before = strings_of(items.drop_last());
        match items.last().text() {
            Some(s) => before.push(s),
            None => before,
        }
    }
}

/// The strings of an array member; `None` when it is no array.
pub open spec fn labels_at(v: JsonView, key: Seq<char>) -> Option<Seq<Seq<char>>> {
    match v.get(key) {
        Some(JsonView::Array(items)) => Some(strings_of(items)),
        _ => None,
    }
}

fn read_labels(v: &Json, key: &str) -> (r: Option<Vec<String>>)
    ensures
        match r {
            Some(l) => labels_at(v@, key@) == Some(texts(l@)),
            None => labels_at(v@, key@) is None,
        },
{
    broadcast use crate::json::group_json_view;

    match v.get(key) {
        Some(Json::Array(items)) => {
            let ghost all = crate::json::items_view(items@);
            let mut out: Vec<String> = Vec::new();
            let mut i: usize = 0;
            assert(texts(out@) =~= strings_of(all.take(0)));
            while i < items.len()
                invariant
                    i <= items.len(),
                    all == crate::json::items_view(items@),
                    texts(out@) == strings_of(all.take(i as int)),
                decreases items.len() - i,
            {
                let ghost before = texts(out@);
                assert(all.take(i + 1).drop_last() =~= all.take(i as int));
                assert(all.take(i + 1).last() == items@[i as int]@);
                if let Some(s) = items[i].as_text() {
                    out.push(s.clone());
                    assert(texts(out@) =~= before.push(s@));
                }
                i = i + 1;
            }
            assert(all.take(i as int) =~= all);
            Some(out)
        },
        _ => None,
    }
}

/// The member `inner` of the member `outer`.
pub open spec fn within(v: JsonView, outer: Seq<char>) -> JsonView {
    match v.get(outer) {
        Some(inner) => inner,
        None => JsonView::Null,
    }
}

/// The revision that the caller expects; zero when the input names none.
pub open spec fn expected_revision(v: JsonView) -> i64 {
    match i64_at(v, "expectedRevision"@) {
        Some(n) => n,
        None => 0,
    }
}

// ---------------------------------------------------------------------------
// Replies
// ---------------------------------------------------------------------------

pub open spec fn invalid_request(message: Seq<char>) -> OutcomeView {
    OutcomeView::Failure { code: OpErrorCode::InvalidRequest, message }
}

pub open spec fn storage_failure(message: Seq<char>) -> OutcomeView {
    OutcomeView::Failure { code: OpErrorCode::PersistenceFailed, message }
}

fn invalid(message: &str) -> (r: SessionStep)
    ensures
        r@ == StepView::Reply(invalid_request(message@)),
{
    SessionStep::Reply(fail(OpErrorCode::InvalidRequest, message))
}

fn storage_error(message: &str) -> (r: SessionStep)
    ensures
        r@ == StepView::Reply(storage_failure(message@)),
{
    SessionStep::Reply(fail(OpErrorCode::PersistenceFailed, message))
}

/// The result of a committed update.
pub open spec fn committed_json(record: SessionRecordView) -> JsonView {
    JsonView::Object(
        present(
            Seq::empty()
                .push(("kind"@, Some(JsonView::Text("committed"@))))
                .push(("session"@, Some(record.json()))),
        ),
    )
}

/// The result of an update at a revision that has passed.
pub open spec fn conflict_json(expected: i64, current: i64) -> JsonView {
    JsonView::Object(
        present(
            Seq::empty()
                .push(("currentRevision"@, Some(JsonView::Number(current as int))))
                .push(("expectedRevision"@, Some(JsonView::Number(expected as int))))
                .push(("kind"@, Some(JsonView::Text("revision_conflict"@)))),
        ),
    )
}

pub open spec fn record_views(v: Seq<SessionRecord>) -> Seq<SessionRecordView> {
    Seq::new(v.len(), |i: int| v[i]@)
}

/// The result of a catalog query: one page of all sessions.
pub open spec fn page_json(records: Seq<SessionRecordView>) -> JsonView {
    JsonView::Object(
        present(
            Seq::empty()
                .push(
                    (
                        "items"@,
                        Some(
                            JsonView::Array(
                                Seq::new(records.len(), |i: int| records[i].json()),
                            ),
                        ),
                    ),
                )
                .push(("kind"@, Some(JsonView::Text("page"@)))),
        ),
    )
}

/// The result of a removal.
pub open spec fn removed_json(removed: bool) -> JsonView {
    JsonView::Object(
        present(Seq::empty().push(("removed"@, Some(JsonView::Bool(removed))))),
    )
}

fn records_json(records: &Vec<SessionRecord>) -> (r: Json)
    ensures
        r@ == JsonView::Array(
            Seq::new(
                record_views(records@).len(),
                |i: int| record_views(records@)[i].json(),
            ),
        ),
{
    broadcast use crate::json::group_json_view;

    let mut out: Vec<Json> = Vec::new();
    let mut i: usize = 0;
    while i < records.len()
        invariant
            i <= records.len(),
            i == out.len(),
            forall|k: int| 0 <= k < i ==> (#[trigger] out@[k])@ == records@[k]@.json(),
        decreases records.len() - i,
    {
        out.push(records[i].to_json());
        i = i + 1;
    }
    let ghost all = record_views(records@);
    assert(crate::json::items_view(out@) =~= Seq::new(all.len(), |i: int| all[i].json()));
    Json::Array(out)
}

// ---------------------------------------------------------------------------
// The operations
// ---------------------------------------------------------------------------

/// The first step of a revision-checked update.
pub open spec fn update_step(input: JsonView, expected: i64, patch: SessionPatchView) -> StepView {
    let session_id = text_or_empty(input, "sessionId"@);
    if session_id.len() == 0 {
        StepView::Reply(invalid_request("sessionId is required"@))
    } else {
        StepView::Update { session_id, expected, patch }
    }
}

fn apply_patch(input: &Json, expected: i64, patch: SessionPatch) -> (r: SessionStep)
    ensures
        r@ == update_step(input@, expected, patch@),
{
    let session_id = str_field(input, "sessionId");
    if session_id.as_str().is_empty() {
        return invalid("sessionId is required");
    }
    SessionStep::Update { session_id, expected, patch }
}

/// The first step of each operation on the given input, at the time `now`.
pub open spec fn first_step(op: SessionOp, input: JsonView, now: i64) -> StepView {
    let session_id = text_or_empty(input, "sessionId"@);
    let nothing = SessionPatchView::nothing();
    match op {
        SessionOp::Create => if session_id.len() == 0 {
            StepView::Reply(invalid_request("sessionId is required"@))
        } else {
            StepView::Create(
                SessionRecordView {
                    session_id,
                    name: text_or_empty(input, "name"@),
                    labels: match labels_at(input, "labels"@) {
                        Some(l) => l,
                        None => Seq::empty(),
                    },
                    revision: 1,
                    is_archived: false,
                    cwd: text_or_empty(input, "cwd"@),
                    config_json: "{}"@,
                    read_marker: None,
                    created_at: now,
                    updated_at: now,
                },
            )
        },
        SessionOp::CatalogQuery => StepView::List,
        SessionOp::MetadataUpdate => update_step(
            input,
            expected_revision(input),
            SessionPatchView {
                name: within(input, "patch"@).text_at("name"@),
                labels: labels_at(within(input, "patch"@), "labels"@),
                ..nothing
            },
        ),
        SessionOp::ConfigurationUpdate => match input.get("configuration"@) {
            Some(c) => if c is Object {
                update_step(
                    input,
                    expected_revision(input),
                    SessionPatchView { config_json: Some(json_text(c)), ..nothing },
                )
            } else {
                StepView::Reply(invalid_request("configuration object is required"@))
            },
            None => StepView::Reply(invalid_request("configuration object is required"@)),
        },
        SessionOp::CwdRelocate => {
            let cwd = text_or_empty(input, "cwd"@);
            if cwd.len() == 0 {
                StepView::Reply(invalid_request("cwd is required"@))
            } else {
                update_step(
                    input,
                    expected_revision(input),
                    SessionPatchView { cwd: Some(cwd), ..nothing },
                )
            }
        },
        SessionOp::ReadMarkerSet => {
            let marker = text_or_empty(input, "readThroughMessageId"@);
            if marker.len() == 0 {
                StepView::Reply(invalid_request("readThroughMessageId is required"@))
            } else {
                StepView::Rebase {
                    session_id,
                    patch: SessionPatchView { read_marker: Some(marker), ..nothing },
                }
            }
        },
        SessionOp::LifecycleSet => {
            let lifecycle = text_or_empty(input, "lifecycle"@);
            if lifecycle == "archived"@ || lifecycle == "active"@ {
                StepView::Rebase {
                    session_id,
                    patch: SessionPatchView {
                        is_archived: Some(lifecycle == "archived"@),
                        ..nothing
                    },
                }
            } else {
                StepView::Reply(invalid_request("lifecycle must be 'archived' or 'active'"@))
            }
        },
        SessionOp::Remove => if session_id.len() == 0 {
            StepView::Reply(invalid_request("sessionId is required"@))
        } else {
            StepView::Remove { session_id }
        },
    }
}

/// The patch that changes nothing.
fn no_change() -> (r: SessionPatch)
    ensures
        r@ == SessionPatchView::nothing(),
{
    SessionPatch::default()
}

fn read_expected(input: &Json) -> (r: i64)
    ensures
        r == expected_revision(input@),
{
    match read_i64(input, "expectedRevision") {
        Some(n) => n,
        None => 0,
    }
}

fn create(input: &Json, now: i64) -> (r: SessionStep)
    ensures
        r@ == first_step(SessionOp::Create, input@, now),
{
    let session_id = str_field(input, "sessionId");
    if session_id.as_str().is_empty() {
        return invalid("sessionId is required");
    }
    let labels = match read_labels(input, "labels") {
        Some(l) => l,
        None => {
            let none: Vec<String> = Vec::new();
            assert(texts(none@) =~= Seq::empty());
            none
        },
    };
    SessionStep::Create(
        SessionRecord {
            session_id,
            name: str_field(input, "name"),
            labels,
            revision: 1,
            is_archived: false,
            cwd: str_field(input, "cwd"),
            config_json: "{}".to_owned(),
            read_marker: None,
            created_at: now,
            updated_at: now,
        },
    )
}

fn metadata_update(input: &Json) -> (r: SessionStep)
    ensures
        forall|now: i64| r@ == #[trigger] first_step(SessionOp::MetadataUpdate, input@, now),
{
    let null = Json::Null;
    let inner = match input.get("patch") {
        Some(p) => p,
        None => &null,
    };
    let mut patch = no_change();
    patch.name = inner.text_at("name");
    patch.labels = read_labels(inner, "labels");
    apply_patch(input, read_expected(input), patch)
}

/// The first step of an operation.
pub fn start(op: SessionOp, input: &Json, now: i64) -> (r: SessionStep)
    ensures
        r@ == first_step(op, input@, now),
{
    match op {
        SessionOp::Create => create(input, now),
        SessionOp::CatalogQuery => SessionStep::List,
        SessionOp::MetadataUpdate => metadata_update(input),
        SessionOp::ConfigurationUpdate => match input.get("configuration") {
            Some(Json::Object(members)) => {
                let mut patch = no_change();
                patch.config_json = match input.get("configuration") {
                    Some(c) => Some(c.to_text()),
                    None => None,
                };
                apply_patch(input, read_expected(input), patch)
            },
            _ => invalid("configuration object is required"),
        },
        SessionOp::CwdRelocate => {
            let cwd = str_field(input, "cwd");
            if cwd.as_str().is_empty() {
                return invalid("cwd is required");
            }
            let mut patch = no_change();
            patch.cwd = Some(cwd);
            apply_patch(input, read_expected(input), patch)
        },
        SessionOp::ReadMarkerSet => {
            let marker = str_field(input, "readThroughMessageId");
            if marker.as_str().is_empty() {
                return invalid("readThroughMessageId is required");
            }
            let mut patch = no_change();
            patch.read_marker = Some(marker);
            SessionStep::Rebase { session_id: str_field(input, "sessionId"), patch }
        },
        SessionOp::LifecycleSet => {
            let lifecycle = str_field(input, "lifecycle");
            let archived = str_eq(lifecycle.as_str(), "archived");
            if !archived && !str_eq(lifecycle.as_str(), "active") {
                return invalid("lifecycle must be 'archived' or 'active'");
            }
            let mut patch = no_change();
            patch.is_archived = Some(archived);
            SessionStep::Rebase { session_id: str_field(input, "sessionId"), patch }
        },
        SessionOp::Remove => {
            let session_id = str_field(input, "sessionId");
            if session_id.as_str().is_empty() {
                return invalid("sessionId is required");
            }
            SessionStep::Remove { session_id }
        },
    }
}

/// What an update came to, as the operation answers it: a passed revision is a
/// result, not an error.
pub open spec fn update_outcome(reply: Result<SessionUpdate, String>) -> OutcomeView {
    match reply {
        Ok(SessionUpdate::Committed(record)) => OutcomeView::Success(committed_json(record@)),
        Ok(SessionUpdate::RevisionConflict { expected, current }) => OutcomeView::Success(
            conflict_json(expected, current),
        ),
        Err(e) => storage_failure(e@),
    }
}

/// What is answered when the store's answer does not fit the step.
pub open spec fn mismatch() -> OutcomeView {
    OutcomeView::Failure {
        code: OpErrorCode::InternalFailure,
        message: "unexpected store reply"@,
    }
}

/// The step behind `step` once the store has answered.
pub open spec fn next_step(step: StepView, reply: SessionReply) -> StepView {
    match (step, reply) {
        (StepView::Create(record), SessionReply::Created(result)) => StepView::Reply(
            match result {
                Ok(_) => OutcomeView::Success(record.json()),
                Err(e) => storage_failure(e@),
            },
        ),
        (StepView::List, SessionReply::Listed(result)) => StepView::Reply(
            match result {
                Ok(records) => OutcomeView::Success(page_json(record_views(records@))),
                Err(e) => storage_failure(e@),
            },
        ),
        (StepView::Rebase { session_id, patch }, SessionReply::Found(result)) => match result {
            Ok(Some(current)) => if session_id.len() == 0 {
                StepView::Reply(invalid_request("sessionId is required"@))
            } else {
                StepView::Update { session_id, expected: current.revision, patch }
            },
            Ok(None) => StepView::Reply(
                invalid_request("session '"@ + session_id + "' does not exist"@),
            ),
            Err(e) => StepView::Reply(storage_failure(e@)),
        },
        (StepView::Update { .. }, SessionReply::Updated(result)) => StepView::Reply(
            update_outcome(result),
        ),
        (StepView::Remove { .. }, SessionReply::Removed(result)) => StepView::Reply(
            match result {
                Ok(removed) => OutcomeView::Success(removed_json(removed)),
                Err(e) => storage_failure(e@),
            },
        ),
        (StepView::Reply(o), _) => StepView::Reply(o),
        _ => StepView::Reply(mismatch()),
    }
}

fn updated(reply: Result<SessionUpdate, String>) -> (r: SessionStep)
    ensures
        r@ == StepView::Reply(update_outcome(reply)),
{
    match reply {
        Ok(SessionUpdate::Committed(record)) => {
            let mut b = ObjectBuilder::new();
            b.put_text("kind", "committed");
            b.put("session", record.to_json());
            SessionStep::Reply(Outcome::Success(b.build()))
        },
        Ok(SessionUpdate::RevisionConflict { expected, current }) => {
            let mut b = ObjectBuilder::new();
            b.put("currentRevision", Json::Int(current));
            b.put("expectedRevision", Json::Int(expected));
            b.put_text("kind", "revision_conflict");
            SessionStep::Reply(Outcome::Success(b.build()))
        },
        Err(e) => storage_error(e.as_str()),
    }
}

/// The step behind `step` once the store has answered.
pub fn resume(step: SessionStep, reply: SessionReply) -> (r: SessionStep)
    ensures
        r@ == next_step(step@, reply),
{
    match (step, reply) {
        (SessionStep::Create(record), SessionReply::Created(result)) => match result {
            Ok(_) => SessionStep::Reply(Outcome::Success(record.to_json())),
            Err(e) => storage_error(e.as_str()),
        },
        (SessionStep::List, SessionReply::Listed(result)) => match result {
            Ok(records) => {
                let mut b = ObjectBuilder::new();
                b.put("items", records_json(&records));
                b.put_text("kind", "page");
                SessionStep::Reply(Outcome::Success(b.build()))
            },
            Err(e) => storage_error(e.as_str()),
        },
        (SessionStep::Rebase { session_id, patch }, SessionReply::Found(result)) => match result {
            Ok(Some(current)) => if session_id.as_str().is_empty() {
                invalid("sessionId is required")
            } else {
                SessionStep::Update { session_id, expected: current.revision, patch }
            },
            Ok(None) => invalid(
                concat3("session '", session_id.as_str(), "' does not exist").as_str(),
            ),
            Err(e) => storage_error(e.as_str()),
        },
        (SessionStep::Update { .. }, SessionReply::Updated(result)) => updated(result),
        (SessionStep::Remove { .. }, SessionReply::Removed(result)) => match result {
            Ok(removed) => {
                let mut b = ObjectBuilder::new();
                b.put("removed", Json::Bool(removed));
                SessionStep::Reply(Outcome::Success(b.build()))
            },
            Err(e) => storage_error(e.as_str()),
        },
        (SessionStep::Reply(o), _) => SessionStep::Reply(o),
        _ => SessionStep::Reply(fail(OpErrorCode::InternalFailure, "unexpected store reply")),
    }
}

/// Every operation comes to a reply within two answers of the store, and only one
/// that rebases on the current revision needs the second.
pub proof fn law_operation_replies(op: SessionOp, input: JsonView, now: i64, a: SessionReply, b:
    SessionReply)
    ensures
        next_step(next_step(first_step(op, input, now), a), b) is Reply,
        !(op is ReadMarkerSet || op is LifecycleSet) ==> next_step(
            first_step(op, input, now),
            a,
        ) is Reply,
{
}

/// A rebased update expects exactly the revision that was read, so it conflicts
/// only with an update committed in between.
pub proof fn law_rebase_expects_what_it_read(step: StepView, current: SessionRecord)
    requires
        step is Rebase,
        step->Rebase_session_id.len() > 0,
    ensures
        next_step(step, SessionReply::Found(Ok(Some(current)))) == (StepView::Update {
            session_id: step->Rebase_session_id,
            expected: current.revision,
            patch: step->Rebase_patch,
        }),
{
}

/// Registers the session handlers.
pub fn register(dispatcher: &mut Dispatcher<Handler>)
    requires
        old(dispatcher).wf(),
    ensures
        final(dispatcher).wf(),
        final(dispatcher).registry() == old(dispatcher).registry().insert(
            SESSION_CREATE@,
            Handler::Session(SessionOp::Create),
        ).insert(SESSION_CATALOG_QUERY@, Handler::Session(SessionOp::CatalogQuery)).insert(
            SESSION_METADATA_UPDATE@,
            Handler::Session(SessionOp::MetadataUpdate),
        ).insert(
            SESSION_CONFIGURATION_UPDATE@,
            Handler::Session(SessionOp::ConfigurationUpdate),
        ).insert(SESSION_CWD_RELOCATE@, Handler::Session(SessionOp::CwdRelocate)).insert(
            SESSION_READ_MARKER_SET@,
            Handler::Session(SessionOp::ReadMarkerSet),
        ).insert(SESSION_LIFECYCLE_SET@, Handler::Session(SessionOp::LifecycleSet)).insert(
            SESSION_REMOVE@,
            Handler::Session(SessionOp::Remove),
        ),
{
    dispatcher.register(SESSION_CREATE, Handler::Session(SessionOp::Create));
    dispatcher.register(SESSION_CATALOG_QUERY, Handler::Session(SessionOp::CatalogQuery));
    dispatcher.register(SESSION_METADATA_UPDATE, Handler::Session(SessionOp::MetadataUpdate));
    dispatcher.register(
        SESSION_CONFIGURATION_UPDATE,
        Handler::Session(SessionOp::ConfigurationUpdate),
    );
    dispatcher.register(SESSION_CWD_RELOCATE, Handler::Session(SessionOp::CwdRelocate));
    dispatcher.register(SESSION_READ_MARKER_SET, Handler::Session(SessionOp::ReadMarkerSet));
    dispatcher.register(SESSION_LIFECYCLE_SET, Handler::Session(SessionOp::LifecycleSet));
    dispatcher.register(SESSION_REMOVE, Handler::Session(SessionOp::Remove));
}

/// What each operation reads and changes: it is about the session that the input names,
/// changes only what it is for, from the member that is for it, and refuses an input that
/// lacks it. Only a create makes a record, at revision 1, not archived, with an empty
/// configuration and no read marker, made now.
pub proof fn law_operations_change_what_they_are_for(op: SessionOp, input: JsonView, now: i64)
    ensures
        ({
            let step = first_step(op, input, now);
            let text = |key: Seq<char>| match input.get(key) {
                Some(JsonView::Text(s)) => s,
                _ => Seq::empty(),
            };
            let id = text("sessionId"@);
            let refused = step matches StepView::Reply(OutcomeView::Failure { code, .. })
                && code is InvalidRequest;
            let expected = match input.get("expectedRevision"@) {
                Some(JsonView::Number(n)) => if i64::MIN <= n <= i64::MAX {
                    n
                } else {
                    0
                },
                _ => 0,
            };
            match op {
                SessionOp::Create => if id.len() == 0 {
                    refused
                } else {
                    step matches StepView::Create(r) && {
                        &&& r.session_id == id
                        &&& r.name == text("name"@)
                        &&& r.cwd == text("cwd"@)
                        &&& r.revision == 1
                        &&& !r.is_archived
                        &&& r.config_json == "{}"@
                        &&& r.read_marker is None
                        &&& r.created_at == now
                        &&& r.updated_at == now
                        &&& !(input.get("labels"@) matches Some(JsonView::Array(_)))
                            ==> r.labels.len() == 0
                        &&& input.get("labels"@) matches Some(JsonView::Array(items))
                            ==> r.labels == strings_of(items)
                    }
                },
                SessionOp::CatalogQuery => step is List,
                SessionOp::MetadataUpdate => if id.len() == 0 {
                    refused
                } else {
                    step matches StepView::Update { session_id, expected: e, patch } && {
                        &&& session_id == id
                        &&& e == expected
                        &&& patch.cwd is None && patch.config_json is None
                            && patch.read_marker is None && patch.is_archived is None
                        &&& patch.name == (match input.get("patch"@) {
                            Some(p) => p.text_at("name"@),
                            None => None,
                        })
                        &&& patch.labels is Some <==> (input.get("patch"@) matches Some(p)
                            && p.get("labels"@) matches Some(JsonView::Array(_)))
                    }
                },
                SessionOp::ConfigurationUpdate => if id.len() == 0 || !(input.get(
                    "configuration"@,
                ) matches Some(JsonView::Object(_))) {
                    refused
                } else {
                    step matches StepView::Update { session_id, expected: e, patch } && {
                        &&& session_id == id
                        &&& e == expected
                        &&& patch.name is None && patch.labels is None && patch.cwd is None
                            && patch.read_marker is None && patch.is_archived is None
                        &&& patch.config_json == Some(json_text(input.get("configuration"@)->0))
                    }
                },
                SessionOp::CwdRelocate => if id.len() == 0 || text("cwd"@).len() == 0 {
                    refused
                } else {
                    step matches StepView::Update { session_id, expected: e, patch } && {
                        &&& session_id == id
                        &&& e == expected
                        &&& patch.name is None && patch.labels is None && patch.config_json is None
                            && patch.read_marker is None && patch.is_archived is None
                        &&& patch.cwd == Some(text("cwd"@))
                    }
                },
                SessionOp::ReadMarkerSet => if text("readThroughMessageId"@).len() == 0 {
                    refused
                } else {
                    step matches StepView::Rebase { session_id, patch } && {
                        &&& session_id == id
                        &&& patch.name is None && patch.labels is None && patch.cwd is None
                            && patch.config_json is None && patch.is_archived is None
                        &&& patch.read_marker == Some(text("readThroughMessageId"@))
                    }
                },
                SessionOp::LifecycleSet => if text("lifecycle"@) != "archived"@ && text(
                    "lifecycle"@,
                ) != "active"@ {
                    refused
                } else {
                    step matches StepView::Rebase { session_id, patch } && {
                        &&& session_id == id
                        &&& patch.name is None && patch.labels is None && patch.cwd is None
                            && patch.config_json is None && patch.read_marker is None
                        &&& patch.is_archived == Some(text("lifecycle"@) == "archived"@)
                    }
                },
                SessionOp::Remove => if id.len() == 0 {
                    refused
                } else {
                    step matches StepView::Remove { session_id } && session_id == id
                },
            }
        }),
{
}

/// The labels are the strings of a list, in order: one more string is one more label, and
/// anything else is none.
pub proof fn law_labels_are_the_strings(items: Seq<JsonView>, v: JsonView)
    ensures
        strings_of(Seq::empty()) == Seq::<Seq<char>>::empty(),
        strings_of(items.push(v)) == (match v {
            JsonView::Text(s) => strings_of(items).push(s),
            _ => strings_of(items),
        }),
{
    assert(items.push(v).drop_last() =~= items);
}

/// How the store's answer is reported: what failed there is a persistence failure with
/// its message; a session that was created, listed or updated is shown as it is; an update at
/// a revision that has passed names both revisions; and a removal says whether there was
/// anything to remove.
pub proof fn law_store_answers_are_reported(step: StepView, reply: SessionReply)
    ensures
        ({
            let next = next_step(step, reply);
            let failed = |m: String|
                next == StepView::Reply(
                    OutcomeView::Failure { code: OpErrorCode::PersistenceFailed, message: m@ },
                );
            match (step, reply) {
                (StepView::Create(record), SessionReply::Created(r)) => match r {
                    Ok(_) => next == StepView::Reply(OutcomeView::Success(record.json())),
                    Err(m) => failed(m),
                },
                (StepView::List, SessionReply::Listed(r)) => match r {
                    Ok(records) => next matches StepView::Reply(OutcomeView::Success(page)) && {
                        &&& page.text_at("kind"@) == Some("page"@)
                        &&& page.get("items"@) matches Some(JsonView::Array(items)) && items.len()
                            == records@.len() && forall|i: int|
                            0 <= i < items.len() ==> #[trigger] items[i] == records@[i]@.json()
                    },
                    Err(m) => failed(m),
                },
                (StepView::Update { .. }, SessionReply::Updated(r)) => match r {
                    Ok(SessionUpdate::Committed(record)) => next matches StepView::Reply(
                        OutcomeView::Success(v),
                    ) && v.text_at("kind"@) == Some("committed"@) && v.get("session"@) == Some(
                        record@.json(),
                    ),
                    Ok(SessionUpdate::RevisionConflict { expected, current }) => next matches StepView::Reply(
                        OutcomeView::Success(v),
                    ) && v.text_at("kind"@) == Some("revision_conflict"@) && v.get(
                        "expectedRevision"@,
                    ) == Some(JsonView::Number(expected as int)) && v.get("currentRevision"@) == Some(
                        JsonView::Number(current as int),
                    ),
                    Err(m) => failed(m),
                },
                (StepView::Remove { .. }, SessionReply::Removed(r)) => match r {
                    Ok(removed) => next matches StepView::Reply(OutcomeView::Success(v)) && v.get(
                        "removed"@,
                    ) == Some(JsonView::Bool(removed)),
                    Err(m) => failed(m),
                },
                (StepView::Rebase { session_id, .. }, SessionReply::Found(Ok(None))) => next matches StepView::Reply(
                    OutcomeView::Failure { code, .. },
                ) && code is InvalidRequest,
                (StepView::Rebase { session_id, .. }, SessionReply::Found(Err(m))) => failed(m),
                _ => true,
            }
        }),
{
    match (step, reply) {
        (StepView::List, SessionReply::Listed(Ok(records))) => {
            let all = record_views(records@);
            let f: Seq<crate::json::Field> = Seq::empty().push(("items"@, Some(JsonView::Array(Seq::new(all.len(), |i: int| all[i].json()))))).push(("kind"@, Some(JsonView::Text("page"@))));
            assert(crate::text::text_lt("items"@, "kind"@)) by {
                reveal_strlit("items");
                reveal_strlit("kind");
                assert(crate::text::lt_at("items"@, "kind"@, 0));
            };
            crate::schema::lemma_step_ascends(f);
            crate::schema::lemma_lookup(f, 0);
            crate::schema::lemma_lookup(f, 1);
        },
        (StepView::Update { .. }, SessionReply::Updated(Ok(SessionUpdate::Committed(record)))) => {
            let f: Seq<crate::json::Field> = Seq::empty().push(("kind"@, Some(JsonView::Text("committed"@)))).push(("session"@, Some(record@.json())));
            assert(crate::text::text_lt("kind"@, "session"@)) by {
                reveal_strlit("kind");
                reveal_strlit("session");
                assert(crate::text::lt_at("kind"@, "session"@, 0));
            };
            crate::schema::lemma_step_ascends(f);
            crate::schema::lemma_lookup(f, 0);
            crate::schema::lemma_lookup(f, 1);
        },
        (
            StepView::Update { .. },
            SessionReply::Updated(Ok(SessionUpdate::RevisionConflict { expected, current })),
        ) => {
            let f: Seq<crate::json::Field> = Seq::empty().push(("currentRevision"@, Some(JsonView::Number(current as int)))).push(("expectedRevision"@, Some(JsonView::Number(expected as int)))).push(("kind"@, Some(JsonView::Text("revision_conflict"@))));
            assert(crate::text::text_lt("currentRevision"@, "expectedRevision"@)) by {
                reveal_strlit("currentRevision");
                reveal_strlit("expectedRevision");
                assert(crate::text::lt_at("currentRevision"@, "expectedRevision"@, 0));
            };
            assert(crate::text::text_lt("expectedRevision"@, "kind"@)) by {
                reveal_strlit("expectedRevision");
                reveal_strlit("kind");
                assert(crate::text::lt_at("expectedRevision"@, "kind"@, 0));
            };
            crate::schema::lemma_step_ascends(f);
            crate::schema::lemma_lookup(f, 0);
            crate::schema::lemma_lookup(f, 1);
            crate::schema::lemma_lookup(f, 2);
        },
        (StepView::Remove { .. }, SessionReply::Removed(Ok(removed))) => {
            let f: Seq<crate::json::Field> = Seq::empty().push(("removed"@, Some(JsonView::Bool(removed))));
            crate::schema::lemma_step_ascends(f);
            crate::schema::lemma_lookup(f, 0);
        },
        _ => {},
    }
}

} // verus!
