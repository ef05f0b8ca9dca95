//! Interaction hub: asynchronous permission prompts over the wire.
//!
//! A backend's permission gate asks through the hub: the request becomes a
//! pending interaction (visible to queries and in the continuity snapshot), the
//! turn blocks on the answer, and answering it gives the canonical request and
//! outcome to persist, so the turn continues.

use crate::ids::fresh_id;
use crate::ids::is_uuid_text;
use crate::interaction::PermissionAnswer;
use crate::interaction::PermissionDecision;
use crate::interaction::PermissionRequest;
use crate::interaction::PermissionRequestView;
use crate::json::items_view;
use crate::json::ordered_text;
use crate::json::present;
use crate::json::Json;
use crate::json::JsonView;
use crate::json::ObjectBuilder;
use crate::text::concat3;
use crate::text::str_eq;
use crate::text_map::as_map;
use crate::text_map::entries_with;
use crate::text_map::entries_without;
use crate::text_map::has_key;
use crate::text_map::lemma_seen;
use crate::text_map::lemma_seen_with;
use crate::text_map::lemma_seen_without;
use crate::text_map::seen;
use crate::text_map::Entries;
use crate::text_map::TextMap;
use vstd::prelude::*;

verus! {

/// Where the prompt arose.
#[derive(Debug)]
pub struct InteractionContext {
    pub session_id: String,
    pub run_id: String,
    pub turn_id: String,
}

impl Clone for InteractionContext {
    fn clone(&self) -> (r: Self)
        ensures
            r == *self,
    {
        InteractionContext {
            session_id: self.session_id.clone(),
            run_id: self.run_id.clone(),
            turn_id: self.turn_id.clone(),
        }
    }
}

#[derive(Debug, PartialEq, Eq)]
pub enum AnswerError {
    NotFound(String),
}

impl AnswerError {
    /// The message of the error.
    pub open spec fn text(self) -> Seq<char> {
        match self {
            AnswerError::NotFound(id) => "no pending interaction '"@ + id@ + "'"@,
        }
    }

    /// The message of the error.
    pub fn message(&self) -> (r: String)
        ensures
            r@ == self.text(),
    {
        match self {
            AnswerError::NotFound(id) => concat3("no pending interaction '", id.as_str(), "'"),
        }
    }
}

/// One prompt that waits for its answer.
struct PendingInteraction {
    ctx: InteractionContext,
    request_json: String,
    created_at: i64,
    view: Json,
}

/// What a pending prompt holds.
pub struct PendingView {
    pub session_id: Seq<char>,
    pub run_id: Seq<char>,
    pub turn_id: Seq<char>,
    /// The canonical text of the request.
    pub request_json: Seq<char>,
    pub created_at: i64,
    /// What clients are shown.
    pub view: JsonView,
}

impl View for PendingInteraction {
    type V = PendingView;

    closed spec fn view(&self) -> PendingView {
        PendingView {
            session_id: self.ctx.session_id@,
            run_id: self.ctx.run_id@,
            turn_id: self.ctx.turn_id@,
            request_json: self.request_json@,
            created_at: self.created_at,
            view: self.view@,
        }
    }
}

/// The pending prompts by id, in the order in which they were asked.
pub type Pending = Entries<PendingView>;

/// What clients are shown of a prompt.
pub open spec fn prompt_json(
    id: Seq<char>,
    session_id: Seq<char>,
    request: PermissionRequestView,
) -> JsonView {
    JsonView::Object(
        present(
            Seq::empty()
                .push(("category"@, Some(request.category.json())))
                .push(("interactionId"@, Some(JsonView::Text(id))))
                .push(("sessionId"@, Some(JsonView::Text(session_id))))
                .push(("summary"@, Some(JsonView::Text(request.summary))))
                .push(("toolName"@, Some(JsonView::Text(request.tool_name)))),
        ),
    )
}

/// The pending prompt that a request becomes.
pub open spec fn prompt(
    id: Seq<char>,
    ctx: InteractionContext,
    request: PermissionRequestView,
    now: i64,
) -> PendingView {
    PendingView {
        session_id: ctx.session_id@,
        run_id: ctx.run_id@,
        turn_id: ctx.turn_id@,
        request_json: ordered_text(request.declared_json()),
        created_at: now,
        view: prompt_json(id, ctx.session_id@, request),
    }
}

/// What clients are shown of a session's pending prompts.
pub open spec fn session_prompts(pending: Pending, session_id: Seq<char>) -> Seq<JsonView>
    decreases pending.len(),
{
    if pending.len() == 0 {
        Seq::empty()
    } else {
        let before = session_prompts(pending.drop_last(), session_id);
        if pending.last().1.session_id == session_id {
            before.push(pending.last().1.view)
        } else {
            before
        }
    }
}

/// The row that records an answered prompt, and whom to unblock.
#[derive(Debug)]
pub struct AnsweredInteraction {
    pub session_id: String,
    pub run_id: String,
    pub turn_id: String,
    pub created_at: i64,
    pub request_json: String,
    pub outcome_json: String,
}

/// The prompts that wait for an answer.
pub struct InteractionHub {
    pending: TextMap<PendingInteraction>,
}

impl InteractionHub {
    pub closed spec fn wf(&self) -> bool {
        self.pending.wf()
    }

    /// The pending prompts.
    pub closed spec fn pending(&self) -> Pending {
        seen(self.pending@, |p: PendingInteraction| p@)
    }

    pub fn new() -> (r: Self)
        ensures
            r.wf(),
            r.pending() == Seq::<(Seq<char>, PendingView)>::empty(),
    {
        let r = InteractionHub { pending: TextMap::new() };
        assert(r.pending() =~= Seq::<(Seq<char>, PendingView)>::empty());
        r
    }

    /// Registers a prompt under the id `id`: it is pending until it is answered.
    pub fn ask_as(&mut self, id: &str, ctx: &InteractionContext, request: &PermissionRequest, now:
        i64)
        requires
            old(self).wf(),
        ensures
            final(self).wf(),
            final(self).pending() == entries_with(
                old(self).pending(),
                id@,
                prompt(id@, *ctx, request@, now),
            ),
    {
        let mut b = ObjectBuilder::new();
        b.put("category", request.category.to_json());
        b.put_text("interactionId", id);
        b.put_text("sessionId", ctx.session_id.as_str());
        b.put_text("summary", request.summary.as_str());
        b.put_text("toolName", request.tool_name.as_str());
        let p = PendingInteraction {
            ctx: ctx.clone(),
            request_json: request.to_declared_json().to_ordered_text(),
            created_at: now,
            view: b.build(),
        };
        proof {
            lemma_seen_with(self.pending@, |p: PendingInteraction| p@, id@, p);
            assert(p@ == prompt(id@, *ctx, request@, now));
        }
        self.pending.insert(id, p);
    }

    /// Registers a prompt under a fresh id, which is returned.
    pub fn ask(&mut self, ctx: &InteractionContext, request: &PermissionRequest, now: i64) -> (id:
        String)
        requires
            old(self).wf(),
        ensures
            final(self).wf(),
            is_uuid_text(id@),
            final(self).pending() == entries_with(
                old(self).pending(),
                id@,
                prompt(id@, *ctx, request@, now),
            ),
    {
        let id = fresh_id();
        self.ask_as(id.as_str(), ctx, request, now);
        id
    }

    /// Answers a pending prompt: it is no longer pending, and the row that records
    /// request and outcome is returned.
    pub fn answer(&mut self, interaction_id: &str, answer: PermissionAnswer) -> (r: Result<
        AnsweredInteraction,
        AnswerError,
    >)
        requires
            old(self).wf(),
        ensures
            final(self).wf(),
            final(self).pending() == entries_without(old(self).pending(), interaction_id@),
            match r {
                Ok(row) => has_key(old(self).pending(), interaction_id@) && records(
                    row,
                    as_map(old(self).pending())[interaction_id@],
                    answer,
                ),
                Err(AnswerError::NotFound(id)) => !has_key(old(self).pending(), interaction_id@)
                    && id@ == interaction_id@,
            },
    {
        proof {
            lemma_seen_without(self.pending@, |p: PendingInteraction| p@, interaction_id@);
            lemma_seen(self.pending@, |p: PendingInteraction| p@, interaction_id@);
        }
        match self.pending.remove(interaction_id) {
            None => Err(AnswerError::NotFound(interaction_id.to_owned())),
            Some(entry) => Ok(
                AnsweredInteraction {
                    session_id: entry.ctx.session_id,
                    run_id: entry.ctx.run_id,
                    turn_id: entry.ctx.turn_id,
                    created_at: entry.created_at,
                    request_json: entry.request_json,
                    outcome_json: answer.to_declared_json().to_ordered_text(),
                },
            ),
        }
    }

    /// The pending prompts of a session, as clients are shown them.
    pub fn pending_for_session(&self, session_id: &str) -> (r: Vec<Json>)
        requires
            self.wf(),
        ensures
            items_view(r@) == session_prompts(self.pending(), session_id@),
    {
        let ghost all = self.pending();
        let mut out: Vec<Json> = Vec::new();
        let mut i: usize = 0;
        assert(items_view(out@) =~= session_prompts(all.take(0), session_id@));
        while i < self.pending.len()
            invariant
                i <= self.pending@.len(),
                all == self.pending(),
                items_view(out@) == session_prompts(all.take(i as int), session_id@),
            decreases self.pending@.len() - i,
        {
            let ghost before = items_view(out@);
            assert(all.take(i + 1).drop_last() =~= all.take(i as int));
            assert(all.take(i + 1).last() == all[i as int]);
            let p = self.pending.at(i);
            if str_eq(p.ctx.session_id.as_str(), session_id) {
                out.push(p.view.clone());
                assert(items_view(out@) =~= before.push(p.view@));
            }
            i = i + 1;
        }
        assert(all.take(i as int) =~= all);
        out
    }
}

/// The row records the prompt and its answer.
pub open spec fn records(row: AnsweredInteraction, p: PendingView, answer: PermissionAnswer) -> bool {
    &&& row.session_id@ == p.session_id
    &&& row.run_id@ == p.run_id
    &&& row.turn_id@ == p.turn_id
    &&& row.created_at == p.created_at
    &&& row.request_json@ == p.request_json
    &&& row.outcome_json@ == ordered_text(answer.declared_json())
}

/// The answer a blocked turn gets when the answerer has vanished: it is denied, so
/// that it unblocks.
pub fn unanswered() -> (r: PermissionAnswer)
    ensures
        r.decision == PermissionDecision::Deny,
        !r.remember_for_turn,
{
    PermissionAnswer { decision: PermissionDecision::Deny, remember_for_turn: false }
}

proof fn lemma_shown(pending: Pending, i: int)
    requires
        0 <= i < pending.len(),
    ensures
        session_prompts(pending, pending[i].1.session_id).contains(pending[i].1.view),
    decreases pending.len(),
{
    let session_id = pending[i].1.session_id;
    let shown = session_prompts(pending, session_id);
    if i == pending.len() - 1 {
        assert(shown.last() == pending[i].1.view);
    } else {
        let init = pending.drop_last();
        lemma_shown(init, i);
        let before = session_prompts(init, session_id);
        let k = choose|k: int| 0 <= k < before.len() && before[k] == pending[i].1.view;
        assert(shown[k] == pending[i].1.view);
    }
}

/// A prompt that was asked is pending and shown to its session's clients. Behind its
/// answer it is no longer pending, so that it is answered at most once.
pub proof fn law_prompt_is_pending_until_answered(pending: Pending, id: Seq<char>, p: PendingView)
    requires
        crate::text_map::distinct_keys(pending),
    ensures
        has_key(entries_with(pending, id, p), id),
        as_map(entries_with(pending, id, p))[id] == p,
        session_prompts(entries_with(pending, id, p), p.session_id).contains(p.view),
        !has_key(entries_without(entries_with(pending, id, p), id), id),
{
    crate::text_map::lemma_with(pending, id, p);
    let now = entries_with(pending, id, p);
    assert(as_map(now).contains_key(id));
    let i = choose|i: int| 0 <= i < now.len() && now[i].0 == id;
    assert(now[i].1 == p);
    lemma_shown(now, i);
    crate::text_map::lemma_without(now, id);
    assert(!as_map(entries_without(now, id)).contains_key(id));
}

/// What clients are shown of a prompt, and what is kept of it, is what was asked: the
/// prompt's own id, its session, tool, summary and category; and an answer's record is of
/// the prompt that was asked, where and when it was.
pub proof fn law_prompts_show_what_is_asked(
    id: Seq<char>,
    ctx: InteractionContext,
    request: PermissionRequestView,
    now: i64,
)
    ensures
        ({
            let p = prompt(id, ctx, request, now);
            &&& p.session_id == ctx.session_id@
            &&& p.run_id == ctx.run_id@
            &&& p.turn_id == ctx.turn_id@
            &&& p.created_at == now
            &&& p.request_json == ordered_text(request.declared_json())
            &&& p.view.text_at("interactionId"@) == Some(id)
            &&& p.view.text_at("sessionId"@) == Some(ctx.session_id@)
            &&& p.view.text_at("toolName"@) == Some(request.tool_name)
            &&& p.view.text_at("summary"@) == Some(request.summary)
            &&& p.view.text_at("category"@) == Some(request.category.wire())
        }),
{
    let f: Seq<crate::json::Field> = Seq::empty().push(("category"@, Some(request.category.json()))).push(("interactionId"@, Some(JsonView::Text(id)))).push(("sessionId"@, Some(JsonView::Text(ctx.session_id@)))).push(("summary"@, Some(JsonView::Text(request.summary)))).push(("toolName"@, Some(JsonView::Text(request.tool_name))));
    assert(crate::text::text_lt("category"@, "interactionId"@)) by {
        reveal_strlit("category");
        reveal_strlit("interactionId");
        assert(crate::text::lt_at("category"@, "interactionId"@, 0));
    };
    assert(crate::text::text_lt("interactionId"@, "sessionId"@)) by {
        reveal_strlit("interactionId");
        reveal_strlit("sessionId");
        assert(crate::text::lt_at("interactionId"@, "sessionId"@, 0));
    };
    assert(crate::text::text_lt("sessionId"@, "summary"@)) by {
        reveal_strlit("sessionId");
        reveal_strlit("summary");
        assert(crate::text::lt_at("sessionId"@, "summary"@, 1));
    };
    assert(crate::text::text_lt("summary"@, "toolName"@)) by {
        reveal_strlit("summary");
        reveal_strlit("toolName");
        assert(crate::text::lt_at("summary"@, "toolName"@, 0));
    };
    crate::schema::lemma_step_ascends(f);
    crate::schema::lemma_lookup(f, 0);
    crate::schema::lemma_lookup(f, 1);
    crate::schema::lemma_lookup(f, 2);
    crate::schema::lemma_lookup(f, 3);
    crate::schema::lemma_lookup(f, 4);
}

/// The prompts of one session are shown in the order in which they were asked, and those
/// of another make no difference.
pub proof fn law_prompts_are_shown_in_order(pending: Pending, id: Seq<char>, p: PendingView, s: Seq<char>)
    ensures
        session_prompts(pending.push((id, p)), s) == (if p.session_id == s {
            session_prompts(pending, s).push(p.view)
        } else {
            session_prompts(pending, s)
        }),
        session_prompts(Seq::empty(), s).len() == 0,
{
    assert(pending.push((id, p)).drop_last() =~= pending);
}

/// What is recorded of an answer is the prompt as it was asked and the answer as it was
/// given: its decision reads back, and whether it holds for the turn.
pub proof fn law_answers_are_recorded(row: AnsweredInteraction, p: PendingView, answer: PermissionAnswer)
    requires
        records(row, p, answer),
    ensures
        row.session_id@ == p.session_id,
        row.run_id@ == p.run_id,
        row.turn_id@ == p.turn_id,
        row.created_at == p.created_at,
        row.request_json@ == p.request_json,
        row.outcome_json@ == ordered_text(answer.declared_json()),
        answer.declared_json().text_at("decision"@) matches Some(name)
            && PermissionDecision::of_wire(name) == Some(answer.decision),
        answer.declared_json().get("remember_for_turn"@) == Some(
            JsonView::Bool(answer.remember_for_turn),
        ),
{
    let f: Seq<crate::json::Field> = Seq::empty().push(("decision"@, Some(answer.decision.json()))).push(("remember_for_turn"@, Some(JsonView::Bool(answer.remember_for_turn))));
    assert(crate::text::text_lt("decision"@, "remember_for_turn"@)) by {
        reveal_strlit("decision");
        reveal_strlit("remember_for_turn");
        assert(crate::text::lt_at("decision"@, "remember_for_turn"@, 0));
    };
    crate::schema::lemma_step_ascends(f);
    crate::schema::lemma_lookup(f, 0);
    crate::schema::lemma_lookup(f, 1);
    answer.decision.lemma_wire();
}

/// A prompt that nobody answers is refused, and nothing is remembered of it.
pub proof fn law_silence_refuses(r: PermissionAnswer)
    requires
        call_ensures(unanswered, (), r),
    ensures
        r.decision is Deny,
        !r.remember_for_turn,
{
}

/// An answer to what is not pending is refused under the id that it gave.
pub proof fn law_answers_need_a_prompt(e: &AnswerError, r: String)
    requires
        call_ensures(AnswerError::message, (e,), r),
    ensures
        *e matches AnswerError::NotFound(id) ==> r@ == "no pending interaction '"@ + id@ + "'"@,
{
}

} // verus!
