//! Durable task execution.
//!
//! A [`TaskRun`] is a task that outlives a single turn or process: its state is
//! the fold of an append-only [`TaskEvent`] ledger, so a new process can resume
//! it. An autonomous loop drives attempts, each an agent run, until a terminal
//! status, with a self-check gate before finalization.

use crate::json::Field;
use crate::json::Json;
use crate::json::JsonView;
use crate::json::ObjectBuilder;
use crate::json::opt;
use crate::json::present;
use crate::json::sound;
use crate::schema::from_opt_i64;
use crate::schema::i64_at;
use crate::schema::keys_ascend;
use crate::schema::lemma_lookup;
use crate::schema::lemma_sound_object;
use crate::schema::lemma_step_ascends;
use crate::schema::member_at;
use crate::schema::opt_i64_json;
use crate::schema::read_i64;
use crate::store::StoreResult;
use crate::text::concat3;
use crate::text::decimal;
use crate::text::decimal_text;
use crate::text::lt_at;
use crate::text::str_eq;
use crate::text::text_lt;
use crate::schema::key_views;
use crate::schema::leading_text;
use crate::schema::listed_members;
use crate::schema::read_leading_text;
use crate::schema::read_tagged_variant;
use crate::schema::read_variant;
use crate::schema::struct_form;
use crate::schema::tagged_variant_name;
use crate::schema::variant_name;
use vstd::prelude::*;

verus! {

/// Task run lifecycle status.
#[derive(Debug, Clone, Copy, PartialEq, Eq, Structural)]
pub enum TaskRunStatus {
    Queued,
    Created,
    Running,
    Verifying,
    Completed,
    Failed,
    Incomplete,
    Blocked,
    PolicyDenied,
    BudgetExhausted,
    NeedsApproval,
    Aborted,
    Cancelled,
}

impl TaskRunStatus {
    /// The name of the variant on the wire.
    pub open spec fn wire(self) -> Seq<char> {
        match self {
            TaskRunStatus::Queued => "queued"@,
            TaskRunStatus::Created => "created"@,
            TaskRunStatus::Running => "running"@,
            TaskRunStatus::Verifying => "verifying"@,
            TaskRunStatus::Completed => "completed"@,
            TaskRunStatus::Failed => "failed"@,
            TaskRunStatus::Incomplete => "incomplete"@,
            TaskRunStatus::Blocked => "blocked"@,
            TaskRunStatus::PolicyDenied => "policy_denied"@,
            TaskRunStatus::BudgetExhausted => "budget_exhausted"@,
            TaskRunStatus::NeedsApproval => "needs_approval"@,
            TaskRunStatus::Aborted => "aborted"@,
            TaskRunStatus::Cancelled => "cancelled"@,
        }
    }

    /// The names on the wire: each variant is written, and read back, as its own.
    pub proof fn law_wire_names()
        ensures
            TaskRunStatus::Queued.wire() == "queued"@,
            TaskRunStatus::of_wire("queued"@) == Some(TaskRunStatus::Queued),
            TaskRunStatus::Created.wire() == "created"@,
            TaskRunStatus::of_wire("created"@) == Some(TaskRunStatus::Created),
            TaskRunStatus::Running.wire() == "running"@,
            TaskRunStatus::of_wire("running"@) == Some(TaskRunStatus::Running),
            TaskRunStatus::Verifying.wire() == "verifying"@,
            TaskRunStatus::of_wire("verifying"@) == Some(TaskRunStatus::Verifying),
            TaskRunStatus::Completed.wire() == "completed"@,
            TaskRunStatus::of_wire("completed"@) == Some(TaskRunStatus::Completed),
            TaskRunStatus::Failed.wire() == "failed"@,
            TaskRunStatus::of_wire("failed"@) == Some(TaskRunStatus::Failed),
            TaskRunStatus::Incomplete.wire() == "incomplete"@,
            TaskRunStatus::of_wire("incomplete"@) == Some(TaskRunStatus::Incomplete),
            TaskRunStatus::Blocked.wire() == "blocked"@,
            TaskRunStatus::of_wire("blocked"@) == Some(TaskRunStatus::Blocked),
            TaskRunStatus::PolicyDenied.wire() == "policy_denied"@,
            TaskRunStatus::of_wire("policy_denied"@) == Some(TaskRunStatus::PolicyDenied),
            TaskRunStatus::BudgetExhausted.wire() == "budget_exhausted"@,
            TaskRunStatus::of_wire("budget_exhausted"@) == Some(TaskRunStatus::BudgetExhausted),
            TaskRunStatus::NeedsApproval.wire() == "needs_approval"@,
            TaskRunStatus::of_wire("needs_approval"@) == Some(TaskRunStatus::NeedsApproval),
            TaskRunStatus::Aborted.wire() == "aborted"@,
            TaskRunStatus::of_wire("aborted"@) == Some(TaskRunStatus::Aborted),
            TaskRunStatus::Cancelled.wire() == "cancelled"@,
            TaskRunStatus::of_wire("cancelled"@) == Some(TaskRunStatus::Cancelled),
    {
        TaskRunStatus::Queued.lemma_wire();
        TaskRunStatus::Created.lemma_wire();
        TaskRunStatus::Running.lemma_wire();
        TaskRunStatus::Verifying.lemma_wire();
        TaskRunStatus::Completed.lemma_wire();
        TaskRunStatus::Failed.lemma_wire();
        TaskRunStatus::Incomplete.lemma_wire();
        TaskRunStatus::Blocked.lemma_wire();
        TaskRunStatus::PolicyDenied.lemma_wire();
        TaskRunStatus::BudgetExhausted.lemma_wire();
        TaskRunStatus::NeedsApproval.lemma_wire();
        TaskRunStatus::Aborted.lemma_wire();
        TaskRunStatus::Cancelled.lemma_wire();
    }

    pub open spec fn json(self) -> JsonView {
        JsonView::Text(self.wire())
    }

    /// The variant that `s` names on the wire.
    pub open spec fn of_wire(s: Seq<char>) -> Option<TaskRunStatus> {
        if s == "queued"@ {
            Some(TaskRunStatus::Queued)
        } else if s == "created"@ {
            Some(TaskRunStatus::Created)
        } else if s == "running"@ {
            Some(TaskRunStatus::Running)
        } else if s == "verifying"@ {
            Some(TaskRunStatus::Verifying)
        } else if s == "completed"@ {
            Some(TaskRunStatus::Completed)
        } else if s == "failed"@ {
            Some(TaskRunStatus::Failed)
        } else if s == "incomplete"@ {
            Some(TaskRunStatus::Incomplete)
        } else if s == "blocked"@ {
            Some(TaskRunStatus::Blocked)
        } else if s == "policy_denied"@ {
            Some(TaskRunStatus::PolicyDenied)
        } else if s == "budget_exhausted"@ {
            Some(TaskRunStatus::BudgetExhausted)
        } else if s == "needs_approval"@ {
            Some(TaskRunStatus::NeedsApproval)
        } else if s == "aborted"@ {
            Some(TaskRunStatus::Aborted)
        } else if s == "cancelled"@ {
            Some(TaskRunStatus::Cancelled)
        } else {
            None
        }
    }

    pub open spec fn of_json(v: JsonView) -> Option<TaskRunStatus> {
        match variant_name(v) {
            Some(s) => TaskRunStatus::of_wire(s),
            None => None,
        }
    }

    /// As [`TaskRunStatus::of_json`], for a member of a tagged value.
    pub open spec fn of_tagged_json(v: JsonView) -> Option<TaskRunStatus> {
        match tagged_variant_name(v) {
            Some(s) => TaskRunStatus::of_wire(s),
            None => None,
        }
    }

    /// The name of the variant on the wire.
    pub fn as_str(self) -> (r: &'static str)
        ensures
            r@ == self.wire(),
    {
        match self {
            TaskRunStatus::Queued => "queued",
            TaskRunStatus::Created => "created",
            TaskRunStatus::Running => "running",
            TaskRunStatus::Verifying => "verifying",
            TaskRunStatus::Completed => "completed",
            TaskRunStatus::Failed => "failed",
            TaskRunStatus::Incomplete => "incomplete",
            TaskRunStatus::Blocked => "blocked",
            TaskRunStatus::PolicyDenied => "policy_denied",
            TaskRunStatus::BudgetExhausted => "budget_exhausted",
            TaskRunStatus::NeedsApproval => "needs_approval",
            TaskRunStatus::Aborted => "aborted",
            TaskRunStatus::Cancelled => "cancelled",
        }
    }

    pub fn to_json(self) -> (r: Json)
        ensures
            r@ == self.json(),
    {
        Json::Text(self.as_str().to_owned())
    }

    /// The variant that `s` names on the wire.
    pub fn parse(s: &str) -> (r: Option<TaskRunStatus>)
        ensures
            r == TaskRunStatus::of_wire(s@),
    {
        if str_eq(s, "queued") {
            Some(TaskRunStatus::Queued)
        } else if str_eq(s, "created") {
            Some(TaskRunStatus::Created)
        } else if str_eq(s, "running") {
            Some(TaskRunStatus::Running)
        } else if str_eq(s, "verifying") {
            Some(TaskRunStatus::Verifying)
        } else if str_eq(s, "completed") {
            Some(TaskRunStatus::Completed)
        } else if str_eq(s, "failed") {
            Some(TaskRunStatus::Failed)
        } else if str_eq(s, "incomplete") {
            Some(TaskRunStatus::Incomplete)
        } else if str_eq(s, "blocked") {
            Some(TaskRunStatus::Blocked)
        } else if str_eq(s, "policy_denied") {
            Some(TaskRunStatus::PolicyDenied)
        } else if str_eq(s, "budget_exhausted") {
            Some(TaskRunStatus::BudgetExhausted)
        } else if str_eq(s, "needs_approval") {
            Some(TaskRunStatus::NeedsApproval)
        } else if str_eq(s, "aborted") {
            Some(TaskRunStatus::Aborted)
        } else if str_eq(s, "cancelled") {
            Some(TaskRunStatus::Cancelled)
        } else {
            None
        }
    }

    pub fn from_json(v: &Json) -> (r: Option<TaskRunStatus>)
        ensures
            r == TaskRunStatus::of_json(v@),
    {
        match read_variant(v) {
            Some(s) => TaskRunStatus::parse(s.as_str()),
            None => None,
        }
    }

    /// As [`TaskRunStatus::from_json`], for a member of a tagged value.
    pub fn from_tagged_json(v: &Json) -> (r: Option<TaskRunStatus>)
        ensures
            r == TaskRunStatus::of_tagged_json(v@),
    {
        match read_tagged_variant(v) {
            Some(s) => TaskRunStatus::parse(s.as_str()),
            None => None,
        }
    }

    /// Every variant is read back from its wire name.
    pub proof fn lemma_wire(self)
        ensures
            TaskRunStatus::of_wire(self.wire()) == Some(self),
            TaskRunStatus::of_json(self.json()) == Some(self),
            TaskRunStatus::of_tagged_json(self.json()) == Some(self),
    {
        reveal_strlit("queued");
        reveal_strlit("created");
        reveal_strlit("running");
        reveal_strlit("verifying");
        reveal_strlit("completed");
        reveal_strlit("failed");
        reveal_strlit("incomplete");
        reveal_strlit("blocked");
        reveal_strlit("policy_denied");
        reveal_strlit("budget_exhausted");
        reveal_strlit("needs_approval");
        reveal_strlit("aborted");
        reveal_strlit("cancelled");
        assert("queued"@.len() == 6);
        assert("created"@.len() == 7);
        assert("running"@.len() == 7);
        assert("verifying"@.len() == 9);
        assert("completed"@.len() == 9);
        assert("failed"@.len() == 6);
        assert("incomplete"@.len() == 10);
        assert("blocked"@.len() == 7);
        assert("policy_denied"@.len() == 13);
        assert("budget_exhausted"@.len() == 16);
        assert("needs_approval"@.len() == 14);
        assert("aborted"@.len() == 7);
        assert("cancelled"@.len() == 9);
        assert("created"@[0] != "running"@[0]);
        assert("verifying"@[0] != "completed"@[0]);
        assert("queued"@[0] != "failed"@[0]);
        assert("created"@[0] != "blocked"@[0]);
        assert("running"@[0] != "blocked"@[0]);
        assert("created"@[0] != "aborted"@[0]);
        assert("running"@[0] != "aborted"@[0]);
        assert("blocked"@[0] != "aborted"@[0]);
        assert("verifying"@[0] != "cancelled"@[0]);
        assert("completed"@[1] != "cancelled"@[1]);
    }
}

impl TaskRunStatus {
    /// Terminal statuses end a task run: no further attempts.
    pub open spec fn terminal(self) -> bool {
        !(self is Queued || self is Created || self is Running || self is Verifying
            || self is NeedsApproval)
    }

    /// Terminal statuses end a task run (no further attempts).
    pub fn is_terminal(self) -> (r: bool)
        ensures
            r == self.terminal(),
    {
        matches!(
            self,
            TaskRunStatus::Completed | TaskRunStatus::Failed | TaskRunStatus::Incomplete
                | TaskRunStatus::Blocked | TaskRunStatus::PolicyDenied
                | TaskRunStatus::BudgetExhausted | TaskRunStatus::Aborted | TaskRunStatus::Cancelled
        )
    }
}

/// One unit of work to execute.
#[derive(Debug, PartialEq)]
pub struct TaskDefinition {
    pub task_id: String,
    pub instruction: String,
    pub workspace_dir: String,
}

/// What a [`TaskDefinition`] says.
pub struct TaskDefinitionView {
    pub task_id: Seq<char>,
    pub instruction: Seq<char>,
    pub workspace_dir: Seq<char>,
}

impl View for TaskDefinition {
    type V = TaskDefinitionView;

    open spec fn view(&self) -> TaskDefinitionView {
        TaskDefinitionView {
            task_id: self.task_id@,
            instruction: self.instruction@,
            workspace_dir: self.workspace_dir@,
        }
    }
}

impl Clone for TaskDefinition {
    fn clone(&self) -> (r: Self)
        ensures
            r@ == self@,
    {
        TaskDefinition {
            task_id: self.task_id.clone(),
            instruction: self.instruction.clone(),
            workspace_dir: self.workspace_dir.clone(),
        }
    }
}

impl TaskDefinitionView {
    /// The members of the JSON object, in key order.
    pub open spec fn fields(self) -> Seq<Field> {
        Seq::empty()
            .push(("instruction"@, Some(JsonView::Text(self.instruction))))
            .push(("task_id"@, Some(JsonView::Text(self.task_id))))
            .push(("workspace_dir"@, Some(JsonView::Text(self.workspace_dir))))
    }

    pub open spec fn json(self) -> JsonView {
        JsonView::Object(present(self.fields()))
    }

    /// The members in the order of declaration.
    pub open spec fn order() -> Seq<Seq<char>> {
        seq!["task_id"@, "instruction"@, "workspace_dir"@]
    }

    /// What the JSON value `v` says; `None` when it is neither such an object nor a list
    /// of its members.
    pub open spec fn of_json(v: JsonView) -> Option<TaskDefinitionView> {
        TaskDefinitionView::of_object(struct_form(v, TaskDefinitionView::order(), 3))
    }

    /// What the JSON object `v` says; `None` when it is no such object.
    pub open spec fn of_object(v: JsonView) -> Option<TaskDefinitionView> {
        let task_id = v.text_at("task_id"@);
        let instruction = v.text_at("instruction"@);
        let workspace_dir = v.text_at("workspace_dir"@);
        if v is Object && task_id is Some && instruction is Some && workspace_dir is Some {
            Some(
                TaskDefinitionView {
                    task_id: task_id->0,
                    instruction: instruction->0,
                    workspace_dir: workspace_dir->0,
                },
            )
        } else {
            None
        }
    }

    proof fn lemma_keys(self)
        ensures
            keys_ascend(self.fields()),
    {
        assert(text_lt("instruction"@, "task_id"@)) by {
            reveal_strlit("instruction");
            reveal_strlit("task_id");
            assert(lt_at("instruction"@, "task_id"@, 0));
        };
        assert(text_lt("task_id"@, "workspace_dir"@)) by {
            reveal_strlit("task_id");
            reveal_strlit("workspace_dir");
            assert(lt_at("task_id"@, "workspace_dir"@, 0));
        };
        lemma_step_ascends(self.fields());
    }

    /// Reading what was written gives the same value back.
    pub proof fn lemma_round_trip(self)
        ensures
            TaskDefinitionView::of_json(self.json()) == Some(self),
            self.json().get("instruction"@) == (Some(JsonView::Text(self.instruction))),
            self.json().get("task_id"@) == (Some(JsonView::Text(self.task_id))),
            self.json().get("workspace_dir"@) == (Some(JsonView::Text(self.workspace_dir))),
    {
        let f = self.fields();
        self.lemma_keys();
        assert(self.json().get("instruction"@) == Some(JsonView::Text(self.instruction))) by {
            lemma_lookup(f, 0);
        };
        assert(self.json().get("task_id"@) == Some(JsonView::Text(self.task_id))) by {
            lemma_lookup(f, 1);
        };
        assert(self.json().get("workspace_dir"@) == Some(JsonView::Text(self.workspace_dir))) by {
            lemma_lookup(f, 2);
        };
    }

    /// The JSON object reads back from its text.
    pub proof fn lemma_sound(self, n: int)
        requires
            n >= 1,
        ensures
            sound(self.json(), n),
    {
        self.lemma_keys();
        lemma_sound_object(self.fields(), n);
    }
}

impl TaskDefinition {
    /// The JSON object for this value.
    pub fn to_json(&self) -> (r: Json)
        ensures
            r@ == self@.json(),
    {
        let mut b = ObjectBuilder::new();
        b.put_text("instruction", self.instruction.as_str());
        b.put_text("task_id", self.task_id.as_str());
        b.put_text("workspace_dir", self.workspace_dir.as_str());
        assert(b.fields() == self@.fields());
        b.build()
    }

    /// Reads the value back from its JSON object, or from a list of its members in the
    /// order of declaration; unknown members are ignored.
    pub fn from_json(v: &Json) -> (r: Option<TaskDefinition>)
        ensures
            match r {
                Some(x) => TaskDefinitionView::of_json(v@) == Some(x@),
                None => TaskDefinitionView::of_json(v@) is None,
            },
    {
        let names: [&str; 3] = ["task_id", "instruction", "workspace_dir"];
        assert(key_views(names@) =~= TaskDefinitionView::order());
        match listed_members(v, &names, 3) {
            Some(o) => TaskDefinition::from_object(&o),
            None => TaskDefinition::from_object(v),
        }
    }

    fn from_object(v: &Json) -> (r: Option<TaskDefinition>)
        ensures
            match r {
                Some(x) => TaskDefinitionView::of_object(v@) == Some(x@),
                None => TaskDefinitionView::of_object(v@) is None,
            },
    {
        match v {
            Json::Object(_) => {},
            _ => return None,
        }
        let task_id = match v.text_at("task_id") {
            Some(x) => x,
            None => return None,
        };
        let instruction = match v.text_at("instruction") {
            Some(x) => x,
            None => return None,
        };
        let workspace_dir = match v.text_at("workspace_dir") {
            Some(x) => x,
            None => return None,
        };
        Some(TaskDefinition { task_id, instruction, workspace_dir })
    }
}

/// A durable task run: the fold of its [`TaskEvent`] ledger.
#[derive(Debug, PartialEq)]
pub struct TaskRun {
    pub task_run_id: String,
    pub task_id: String,
    pub status: TaskRunStatus,
    pub instruction: String,
    pub started_at: Option<i64>,
    pub finished_at: Option<i64>,
    pub attempt_count: u32,
}

/// What a [`TaskRun`] says.
pub struct TaskRunView {
    pub task_run_id: Seq<char>,
    pub task_id: Seq<char>,
    pub status: TaskRunStatus,
    pub instruction: Seq<char>,
    pub started_at: Option<i64>,
    pub finished_at: Option<i64>,
    pub attempt_count: u32,
}

impl View for TaskRun {
    type V = TaskRunView;

    open spec fn view(&self) -> TaskRunView {
        TaskRunView {
            task_run_id: self.task_run_id@,
            task_id: self.task_id@,
            status: self.status,
            instruction: self.instruction@,
            started_at: self.started_at,
            finished_at: self.finished_at,
            attempt_count: self.attempt_count,
        }
    }
}

impl Clone for TaskRun {
    fn clone(&self) -> (r: Self)
        ensures
            r@ == self@,
    {
        TaskRun {
            task_run_id: self.task_run_id.clone(),
            task_id: self.task_id.clone(),
            status: self.status,
            instruction: self.instruction.clone(),
            started_at: self.started_at,
            finished_at: self.finished_at,
            attempt_count: self.attempt_count,
        }
    }
}

impl TaskRunView {
    /// The members of the JSON object, in key order.
    pub open spec fn fields(self) -> Seq<Field> {
        Seq::empty()
            .push(("attempt_count"@, Some(JsonView::Number(self.attempt_count as int))))
            .push(("finished_at"@, opt_i64_json(self.finished_at)))
            .push(("instruction"@, Some(JsonView::Text(self.instruction))))
            .push(("started_at"@, opt_i64_json(self.started_at)))
            .push(("status"@, Some(self.status.json())))
            .push(("task_id"@, Some(JsonView::Text(self.task_id))))
            .push(("task_run_id"@, Some(JsonView::Text(self.task_run_id))))
    }

    pub open spec fn json(self) -> JsonView {
        JsonView::Object(present(self.fields()))
    }
}

impl TaskRun {
    /// The JSON object for this value.
    pub fn to_json(&self) -> (r: Json)
        ensures
            r@ == self@.json(),
    {
        let mut b = ObjectBuilder::new();
        b.put("attempt_count", Json::Uint(self.attempt_count as u64));
        b.put_opt("finished_at", from_opt_i64(self.finished_at));
        b.put_text("instruction", self.instruction.as_str());
        b.put_opt("started_at", from_opt_i64(self.started_at));
        b.put("status", self.status.to_json());
        b.put_text("task_id", self.task_id.as_str());
        b.put_text("task_run_id", self.task_run_id.as_str());
        assert(b.fields() == self@.fields());
        b.build()
    }
}

/// One attempt of a task run (one agent run).
#[derive(Debug, PartialEq)]
pub struct TaskAttempt {
    pub attempt_id: String,
    pub task_run_id: String,
    pub status: TaskRunStatus,
    pub started_at: i64,
    pub finished_at: Option<i64>,
}

/// What a [`TaskAttempt`] says.
pub struct TaskAttemptView {
    pub attempt_id: Seq<char>,
    pub task_run_id: Seq<char>,
    pub status: TaskRunStatus,
    pub started_at: i64,
    pub finished_at: Option<i64>,
}

impl View for TaskAttempt {
    type V = TaskAttemptView;

    open spec fn view(&self) -> TaskAttemptView {
        TaskAttemptView {
            attempt_id: self.attempt_id@,
            task_run_id: self.task_run_id@,
            status: self.status,
            started_at: self.started_at,
            finished_at: self.finished_at,
        }
    }
}

impl Clone for TaskAttempt {
    fn clone(&self) -> (r: Self)
        ensures
            r@ == self@,
    {
        TaskAttempt {
            attempt_id: self.attempt_id.clone(),
            task_run_id: self.task_run_id.clone(),
            status: self.status,
            started_at: self.started_at,
            finished_at: self.finished_at,
        }
    }
}

impl TaskAttemptView {
    /// The members of the JSON object, in key order.
    pub open spec fn fields(self) -> Seq<Field> {
        Seq::empty()
            .push(("attempt_id"@, Some(JsonView::Text(self.attempt_id))))
            .push(("finished_at"@, opt_i64_json(self.finished_at)))
            .push(("started_at"@, Some(JsonView::Number(self.started_at as int))))
            .push(("status"@, Some(self.status.json())))
            .push(("task_run_id"@, Some(JsonView::Text(self.task_run_id))))
    }

    pub open spec fn json(self) -> JsonView {
        JsonView::Object(present(self.fields()))
    }
}

impl TaskAttempt {
    /// The JSON object for this value.
    pub fn to_json(&self) -> (r: Json)
        ensures
            r@ == self@.json(),
    {
        let mut b = ObjectBuilder::new();
        b.put_text("attempt_id", self.attempt_id.as_str());
        b.put_opt("finished_at", from_opt_i64(self.finished_at));
        b.put("started_at", Json::Int(self.started_at));
        b.put("status", self.status.to_json());
        b.put_text("task_run_id", self.task_run_id.as_str());
        assert(b.fields() == self@.fields());
        b.build()
    }
}

/// One event in the task-run ledger. The state of a run is the fold of these
/// events in sequence order.
#[derive(Debug, PartialEq)]
pub enum TaskEvent {
    Created {
        task_run_id: String,
        task_id: String,
        instruction: String,
        ts: i64,
    },
    Queued {
        task_run_id: String,
        ts: i64,
    },
    AttemptStarted {
        task_run_id: String,
        attempt_id: String,
        ts: i64,
    },
    AttemptCompleted {
        task_run_id: String,
        attempt_id: String,
        status: TaskRunStatus,
        ts: i64,
    },
    RunCompleted {
        task_run_id: String,
        ts: i64,
    },
    RunFailed {
        task_run_id: String,
        error: String,
        ts: i64,
    },
}

/// What a [`TaskEvent`] says.
pub enum TaskEventView {
    Created {
        task_run_id: Seq<char>,
        task_id: Seq<char>,
        instruction: Seq<char>,
        ts: i64,
    },
    Queued {
        task_run_id: Seq<char>,
        ts: i64,
    },
    AttemptStarted {
        task_run_id: Seq<char>,
        attempt_id: Seq<char>,
        ts: i64,
    },
    AttemptCompleted {
        task_run_id: Seq<char>,
        attempt_id: Seq<char>,
        status: TaskRunStatus,
        ts: i64,
    },
    RunCompleted {
        task_run_id: Seq<char>,
        ts: i64,
    },
    RunFailed {
        task_run_id: Seq<char>,
        error: Seq<char>,
        ts: i64,
    },
}

impl View for TaskEvent {
    type V = TaskEventView;

    open spec fn view(&self) -> TaskEventView {
        match *self {
            TaskEvent::Created { task_run_id, task_id, instruction, ts } => TaskEventView::Created {
                task_run_id: task_run_id@,
                task_id: task_id@,
                instruction: instruction@,
                ts: ts,
            },
            TaskEvent::Queued { task_run_id, ts } => TaskEventView::Queued {
                task_run_id: task_run_id@,
                ts: ts,
            },
            TaskEvent::AttemptStarted { task_run_id, attempt_id, ts } => TaskEventView::AttemptStarted {
                task_run_id: task_run_id@,
                attempt_id: attempt_id@,
                ts: ts,
            },
            TaskEvent::AttemptCompleted { task_run_id, attempt_id, status, ts } => TaskEventView::AttemptCompleted {
                task_run_id: task_run_id@,
                attempt_id: attempt_id@,
                status: status,
                ts: ts,
            },
            TaskEvent::RunCompleted { task_run_id, ts } => TaskEventView::RunCompleted {
                task_run_id: task_run_id@,
                ts: ts,
            },
            TaskEvent::RunFailed { task_run_id, error, ts } => TaskEventView::RunFailed {
                task_run_id: task_run_id@,
                error: error@,
                ts: ts,
            },
        }
    }
}

impl Clone for TaskEvent {
    fn clone(&self) -> (r: Self)
        ensures
            r@ == self@,
    {
        match self {
            TaskEvent::Created { task_run_id, task_id, instruction, ts } => TaskEvent::Created {
                task_run_id: task_run_id.clone(),
                task_id: task_id.clone(),
                instruction: instruction.clone(),
                ts: *ts,
            },
            TaskEvent::Queued { task_run_id, ts } => TaskEvent::Queued {
                task_run_id: task_run_id.clone(),
                ts: *ts,
            },
            TaskEvent::AttemptStarted { task_run_id, attempt_id, ts } => TaskEvent::AttemptStarted {
                task_run_id: task_run_id.clone(),
                attempt_id: attempt_id.clone(),
                ts: *ts,
            },
            TaskEvent::AttemptCompleted { task_run_id, attempt_id, status, ts } => TaskEvent::AttemptCompleted {
                task_run_id: task_run_id.clone(),
                attempt_id: attempt_id.clone(),
                status: *status,
                ts: *ts,
            },
            TaskEvent::RunCompleted { task_run_id, ts } => TaskEvent::RunCompleted {
                task_run_id: task_run_id.clone(),
                ts: *ts,
            },
            TaskEvent::RunFailed { task_run_id, error, ts } => TaskEvent::RunFailed {
                task_run_id: task_run_id.clone(),
                error: error.clone(),
                ts: *ts,
            },
        }
    }
}

impl TaskEventView {
    /// The members of the JSON object, in key order.
    pub open spec fn fields(self) -> Seq<Field> {
        match self {
            TaskEventView::Created { task_run_id, task_id, instruction, ts } => Seq::empty()
                .push(("instruction"@, Some(JsonView::Text(instruction))))
                .push(("kind"@, Some(JsonView::Text("created"@))))
                .push(("task_id"@, Some(JsonView::Text(task_id))))
                .push(("task_run_id"@, Some(JsonView::Text(task_run_id))))
                .push(("ts"@, Some(JsonView::Number(ts as int)))),
            TaskEventView::Queued { task_run_id, ts } => Seq::empty()
                .push(("kind"@, Some(JsonView::Text("queued"@))))
                .push(("task_run_id"@, Some(JsonView::Text(task_run_id))))
                .push(("ts"@, Some(JsonView::Number(ts as int)))),
            TaskEventView::AttemptStarted { task_run_id, attempt_id, ts } => Seq::empty()
                .push(("attempt_id"@, Some(JsonView::Text(attempt_id))))
                .push(("kind"@, Some(JsonView::Text("attempt_started"@))))
                .push(("task_run_id"@, Some(JsonView::Text(task_run_id))))
                .push(("ts"@, Some(JsonView::Number(ts as int)))),
            TaskEventView::AttemptCompleted { task_run_id, attempt_id, status, ts } => Seq::empty()
                .push(("attempt_id"@, Some(JsonView::Text(attempt_id))))
                .push(("kind"@, Some(JsonView::Text("attempt_completed"@))))
                .push(("status"@, Some(status.json())))
                .push(("task_run_id"@, Some(JsonView::Text(task_run_id))))
                .push(("ts"@, Some(JsonView::Number(ts as int)))),
            TaskEventView::RunCompleted { task_run_id, ts } => Seq::empty()
                .push(("kind"@, Some(JsonView::Text("run_completed"@))))
                .push(("task_run_id"@, Some(JsonView::Text(task_run_id))))
                .push(("ts"@, Some(JsonView::Number(ts as int)))),
            TaskEventView::RunFailed { task_run_id, error, ts } => Seq::empty()
                .push(("error"@, Some(JsonView::Text(error))))
                .push(("kind"@, Some(JsonView::Text("run_failed"@))))
                .push(("task_run_id"@, Some(JsonView::Text(task_run_id))))
                .push(("ts"@, Some(JsonView::Number(ts as int)))),
        }
    }

    pub open spec fn json(self) -> JsonView {
        JsonView::Object(present(self.fields()))
    }

    /// The tags differ.
    proof fn lemma_tags()
        ensures
            TaskEventView::order("created"@).0 == seq!["kind"@, "task_run_id"@, "task_id"@, "instruction"@, "ts"@],
            TaskEventView::order("created"@).1 == 5,
            TaskEventView::order("queued"@).0 == seq!["kind"@, "task_run_id"@, "ts"@],
            TaskEventView::order("queued"@).1 == 3,
            TaskEventView::order("attempt_started"@).0 == seq!["kind"@, "task_run_id"@, "attempt_id"@, "ts"@],
            TaskEventView::order("attempt_started"@).1 == 4,
            TaskEventView::order("attempt_completed"@).0 == seq!["kind"@, "task_run_id"@, "attempt_id"@, "status"@, "ts"@],
            TaskEventView::order("attempt_completed"@).1 == 5,
            TaskEventView::order("run_completed"@).0 == seq!["kind"@, "task_run_id"@, "ts"@],
            TaskEventView::order("run_completed"@).1 == 3,
            TaskEventView::order("run_failed"@).0 == seq!["kind"@, "task_run_id"@, "error"@, "ts"@],
            TaskEventView::order("run_failed"@).1 == 4,
    {
        reveal_strlit("created");
        reveal_strlit("queued");
        reveal_strlit("attempt_started");
        reveal_strlit("attempt_completed");
        reveal_strlit("run_completed");
        reveal_strlit("run_failed");
        assert("created"@.len() == 7);
        assert("queued"@.len() == 6);
        assert("attempt_started"@.len() == 15);
        assert("attempt_completed"@.len() == 17);
        assert("run_completed"@.len() == 13);
        assert("run_failed"@.len() == 10);
    }

    /// The members of the variant `tag` in the order of declaration, the tag first, and
    /// how many of them a list must give.
    pub open spec fn order(tag: Seq<char>) -> (Seq<Seq<char>>, int) {
        if tag == "created"@ {
            (seq!["kind"@, "task_run_id"@, "task_id"@, "instruction"@, "ts"@], 5)
        } else if tag == "queued"@ {
            (seq!["kind"@, "task_run_id"@, "ts"@], 3)
        } else if tag == "attempt_started"@ {
            (seq!["kind"@, "task_run_id"@, "attempt_id"@, "ts"@], 4)
        } else if tag == "attempt_completed"@ {
            (seq!["kind"@, "task_run_id"@, "attempt_id"@, "status"@, "ts"@], 5)
        } else if tag == "run_completed"@ {
            (seq!["kind"@, "task_run_id"@, "ts"@], 3)
        } else if tag == "run_failed"@ {
            (seq!["kind"@, "task_run_id"@, "error"@, "ts"@], 4)
        } else {
            (Seq::empty(), 1)
        }
    }

    /// What the JSON value `v` says; `None` when it is neither such an object nor a list
    /// of its members.
    pub open spec fn of_json(v: JsonView) -> Option<TaskEventView> {
        let order = TaskEventView::order(leading_text(v));
        TaskEventView::of_object(struct_form(v, order.0, order.1))
    }

    /// What the JSON object `v` says; `None` when it is no such object.
    pub open spec fn of_object(v: JsonView) -> Option<TaskEventView> {
        let tag = v.text_at("kind"@);
        if tag == Some("created"@) {
            let task_run_id = v.text_at("task_run_id"@);
            let task_id = v.text_at("task_id"@);
            let instruction = v.text_at("instruction"@);
            let ts = i64_at(v, "ts"@);
            if task_run_id is Some && task_id is Some && instruction is Some && ts is Some {
                Some(
                    TaskEventView::Created {
                        task_run_id: task_run_id->0,
                        task_id: task_id->0,
                        instruction: instruction->0,
                        ts: ts->0,
                    },
                )
            } else {
                None
            }
        } else if tag == Some("queued"@) {
            let task_run_id = v.text_at("task_run_id"@);
            let ts = i64_at(v, "ts"@);
            if task_run_id is Some && ts is Some {
                Some(
                    TaskEventView::Queued {
                        task_run_id: task_run_id->0,
                        ts: ts->0,
                    },
                )
            } else {
                None
            }
        } else if tag == Some("attempt_started"@) {
            let task_run_id = v.text_at("task_run_id"@);
            let attempt_id = v.text_at("attempt_id"@);
            let ts = i64_at(v, "ts"@);
            if task_run_id is Some && attempt_id is Some && ts is Some {
                Some(
                    TaskEventView::AttemptStarted {
                        task_run_id: task_run_id->0,
                        attempt_id: attempt_id->0,
                        ts: ts->0,
                    },
                )
            } else {
                None
            }
        } else if tag == Some("attempt_completed"@) {
            let task_run_id = v.text_at("task_run_id"@);
            let attempt_id = v.text_at("attempt_id"@);
            let status = member_at(v, "status"@, |j: JsonView| TaskRunStatus::of_tagged_json(j));
            let ts = i64_at(v, "ts"@);
            if task_run_id is Some && attempt_id is Some && status is Some && ts is Some {
                Some(
                    TaskEventView::AttemptCompleted {
                        task_run_id: task_run_id->0,
                        attempt_id: attempt_id->0,
                        status: status->0,
                        ts: ts->0,
                    },
                )
            } else {
                None
            }
        } else if tag == Some("run_completed"@) {
            let task_run_id = v.text_at("task_run_id"@);
            let ts = i64_at(v, "ts"@);
            if task_run_id is Some && ts is Some {
                Some(
                    TaskEventView::RunCompleted {
                        task_run_id: task_run_id->0,
                        ts: ts->0,
                    },
                )
            } else {
                None
            }
        } else if tag == Some("run_failed"@) {
            let task_run_id = v.text_at("task_run_id"@);
            let error = v.text_at("error"@);
            let ts = i64_at(v, "ts"@);
            if task_run_id is Some && error is Some && ts is Some {
                Some(
                    TaskEventView::RunFailed {
                        task_run_id: task_run_id->0,
                        error: error->0,
                        ts: ts->0,
                    },
                )
            } else {
                None
            }
        } else {
            None
        }
    }

    proof fn lemma_keys(self)
        ensures
            keys_ascend(self.fields()),
    {
        match self {
            TaskEventView::Created { .. } => {
                assert(text_lt("instruction"@, "kind"@)) by {
                    reveal_strlit("instruction");
                    reveal_strlit("kind");
                    assert(lt_at("instruction"@, "kind"@, 0));
                };
                assert(text_lt("kind"@, "task_id"@)) by {
                    reveal_strlit("kind");
                    reveal_strlit("task_id");
                    assert(lt_at("kind"@, "task_id"@, 0));
                };
                assert(text_lt("task_id"@, "task_run_id"@)) by {
                    reveal_strlit("task_id");
                    reveal_strlit("task_run_id");
                    assert(lt_at("task_id"@, "task_run_id"@, 5));
                };
                assert(text_lt("task_run_id"@, "ts"@)) by {
                    reveal_strlit("task_run_id");
                    reveal_strlit("ts");
                    assert(lt_at("task_run_id"@, "ts"@, 1));
                };
            },
            TaskEventView::Queued { .. } => {
                assert(text_lt("kind"@, "task_run_id"@)) by {
                    reveal_strlit("kind");
                    reveal_strlit("task_run_id");
                    assert(lt_at("kind"@, "task_run_id"@, 0));
                };
                assert(text_lt("task_run_id"@, "ts"@)) by {
                    reveal_strlit("task_run_id");
                    reveal_strlit("ts");
                    assert(lt_at("task_run_id"@, "ts"@, 1));
                };
            },
            TaskEventView::AttemptStarted { .. } => {
                assert(text_lt("attempt_id"@, "kind"@)) by {
                    reveal_strlit("attempt_id");
                    reveal_strlit("kind");
                    assert(lt_at("attempt_id"@, "kind"@, 0));
                };
                assert(text_lt("kind"@, "task_run_id"@)) by {
                    reveal_strlit("kind");
                    reveal_strlit("task_run_id");
                    assert(lt_at("kind"@, "task_run_id"@, 0));
                };
                assert(text_lt("task_run_id"@, "ts"@)) by {
                    reveal_strlit("task_run_id");
                    reveal_strlit("ts");
                    assert(lt_at("task_run_id"@, "ts"@, 1));
                };
            },
            TaskEventView::AttemptCompleted { .. } => {
                assert(text_lt("attempt_id"@, "kind"@)) by {
                    reveal_strlit("attempt_id");
                    reveal_strlit("kind");
                    assert(lt_at("attempt_id"@, "kind"@, 0));
                };
                assert(text_lt("kind"@, "status"@)) by {
                    reveal_strlit("kind");
                    reveal_strlit("status");
                    assert(lt_at("kind"@, "status"@, 0));
                };
                assert(text_lt("status"@, "task_run_id"@)) by {
                    reveal_strlit("status");
                    reveal_strlit("task_run_id");
                    assert(lt_at("status"@, "task_run_id"@, 0));
                };
                assert(text_lt("task_run_id"@, "ts"@)) by {
                    reveal_strlit("task_run_id");
                    reveal_strlit("ts");
                    assert(lt_at("task_run_id"@, "ts"@, 1));
                };
            },
            TaskEventView::RunCompleted { .. } => {
                assert(text_lt("kind"@, "task_run_id"@)) by {
                    reveal_strlit("kind");
                    reveal_strlit("task_run_id");
                    assert(lt_at("kind"@, "task_run_id"@, 0));
                };
                assert(text_lt("task_run_id"@, "ts"@)) by {
                    reveal_strlit("task_run_id");
                    reveal_strlit("ts");
                    assert(lt_at("task_run_id"@, "ts"@, 1));
                };
            },
            TaskEventView::RunFailed { .. } => {
                assert(text_lt("error"@, "kind"@)) by {
                    reveal_strlit("error");
                    reveal_strlit("kind");
                    assert(lt_at("error"@, "kind"@, 0));
                };
                assert(text_lt("kind"@, "task_run_id"@)) by {
                    reveal_strlit("kind");
                    reveal_strlit("task_run_id");
                    assert(lt_at("kind"@, "task_run_id"@, 0));
                };
                assert(text_lt("task_run_id"@, "ts"@)) by {
                    reveal_strlit("task_run_id");
                    reveal_strlit("ts");
                    assert(lt_at("task_run_id"@, "ts"@, 1));
                };
            },
        }
        lemma_step_ascends(self.fields());
    }

    /// Reading what was written gives the same value back.
    pub proof fn lemma_round_trip(self)
        ensures
            TaskEventView::of_json(self.json()) == Some(self),
    {
        let f = self.fields();
        self.lemma_keys();
        reveal_strlit("created");
        reveal_strlit("queued");
        reveal_strlit("attempt_started");
        reveal_strlit("attempt_completed");
        reveal_strlit("run_completed");
        reveal_strlit("run_failed");
        assert("created"@.len() == 7);
        assert("queued"@.len() == 6);
        assert("attempt_started"@.len() == 15);
        assert("attempt_completed"@.len() == 17);
        assert("run_completed"@.len() == 13);
        assert("run_failed"@.len() == 10);
        match self {
            TaskEventView::Created { .. } => {
                assert(self.json().get("instruction"@) == f[0].1) by {
                    lemma_lookup(f, 0);
                };
                assert(self.json().get("kind"@) == f[1].1) by {
                    lemma_lookup(f, 1);
                };
                assert(self.json().get("task_id"@) == f[2].1) by {
                    lemma_lookup(f, 2);
                };
                assert(self.json().get("task_run_id"@) == f[3].1) by {
                    lemma_lookup(f, 3);
                };
                assert(self.json().get("ts"@) == f[4].1) by {
                    lemma_lookup(f, 4);
                };
            },
            TaskEventView::Queued { .. } => {
                assert(self.json().get("kind"@) == f[0].1) by {
                    lemma_lookup(f, 0);
                };
                assert(self.json().get("task_run_id"@) == f[1].1) by {
                    lemma_lookup(f, 1);
                };
                assert(self.json().get("ts"@) == f[2].1) by {
                    lemma_lookup(f, 2);
                };
            },
            TaskEventView::AttemptStarted { .. } => {
                assert(self.json().get("attempt_id"@) == f[0].1) by {
                    lemma_lookup(f, 0);
                };
                assert(self.json().get("kind"@) == f[1].1) by {
                    lemma_lookup(f, 1);
                };
                assert(self.json().get("task_run_id"@) == f[2].1) by {
                    lemma_lookup(f, 2);
                };
                assert(self.json().get("ts"@) == f[3].1) by {
                    lemma_lookup(f, 3);
                };
            },
            TaskEventView::AttemptCompleted { status, .. } => {
                assert(self.json().get("attempt_id"@) == f[0].1) by {
                    lemma_lookup(f, 0);
                };
                assert(self.json().get("kind"@) == f[1].1) by {
                    lemma_lookup(f, 1);
                };
                assert(self.json().get("status"@) == f[2].1) by {
                    lemma_lookup(f, 2);
                };
                assert(self.json().get("task_run_id"@) == f[3].1) by {
                    lemma_lookup(f, 3);
                };
                assert(self.json().get("ts"@) == f[4].1) by {
                    lemma_lookup(f, 4);
                };
                status.lemma_wire();
            },
            TaskEventView::RunCompleted { .. } => {
                assert(self.json().get("kind"@) == f[0].1) by {
                    lemma_lookup(f, 0);
                };
                assert(self.json().get("task_run_id"@) == f[1].1) by {
                    lemma_lookup(f, 1);
                };
                assert(self.json().get("ts"@) == f[2].1) by {
                    lemma_lookup(f, 2);
                };
            },
            TaskEventView::RunFailed { .. } => {
                assert(self.json().get("error"@) == f[0].1) by {
                    lemma_lookup(f, 0);
                };
                assert(self.json().get("kind"@) == f[1].1) by {
                    lemma_lookup(f, 1);
                };
                assert(self.json().get("task_run_id"@) == f[2].1) by {
                    lemma_lookup(f, 2);
                };
                assert(self.json().get("ts"@) == f[3].1) by {
                    lemma_lookup(f, 3);
                };
            },
        }
    }

    /// The JSON object reads back from its text.
    pub proof fn lemma_sound(self, n: int)
        requires
            n >= 1,
        ensures
            sound(self.json(), n),
    {
        self.lemma_keys();
        lemma_sound_object(self.fields(), n);
    }
}

impl TaskEvent {
    /// The JSON object for this value.
    pub fn to_json(&self) -> (r: Json)
        ensures
            r@ == self@.json(),
    {
        let mut b = ObjectBuilder::new();
        match self {
            TaskEvent::Created { task_run_id, task_id, instruction, ts } => {
                b.put_text("instruction", instruction.as_str());
                b.put_text("kind", "created");
                b.put_text("task_id", task_id.as_str());
                b.put_text("task_run_id", task_run_id.as_str());
                b.put("ts", Json::Int(*ts));
            },
            TaskEvent::Queued { task_run_id, ts } => {
                b.put_text("kind", "queued");
                b.put_text("task_run_id", task_run_id.as_str());
                b.put("ts", Json::Int(*ts));
            },
            TaskEvent::AttemptStarted { task_run_id, attempt_id, ts } => {
                b.put_text("attempt_id", attempt_id.as_str());
                b.put_text("kind", "attempt_started");
                b.put_text("task_run_id", task_run_id.as_str());
                b.put("ts", Json::Int(*ts));
            },
            TaskEvent::AttemptCompleted { task_run_id, attempt_id, status, ts } => {
                b.put_text("attempt_id", attempt_id.as_str());
                b.put_text("kind", "attempt_completed");
                b.put("status", status.to_json());
                b.put_text("task_run_id", task_run_id.as_str());
                b.put("ts", Json::Int(*ts));
            },
            TaskEvent::RunCompleted { task_run_id, ts } => {
                b.put_text("kind", "run_completed");
                b.put_text("task_run_id", task_run_id.as_str());
                b.put("ts", Json::Int(*ts));
            },
            TaskEvent::RunFailed { task_run_id, error, ts } => {
                b.put_text("error", error.as_str());
                b.put_text("kind", "run_failed");
                b.put_text("task_run_id", task_run_id.as_str());
                b.put("ts", Json::Int(*ts));
            },
        }
        assert(b.fields() == self@.fields());
        b.build()
    }

    /// Reads the value back from its JSON object, or from a list of its members in the
    /// order of declaration; unknown members are ignored.
    pub fn from_json(v: &Json) -> (r: Option<TaskEvent>)
        ensures
            match r {
                Some(x) => TaskEventView::of_json(v@) == Some(x@),
                None => TaskEventView::of_json(v@) is None,
            },
    {
        proof {
            TaskEventView::lemma_tags();
        }
        let tag = read_leading_text(v);
        if str_eq(tag.as_str(), "created") {
            let names: [&str; 5] = ["kind", "task_run_id", "task_id", "instruction", "ts"];
            assert(key_views(names@) =~= TaskEventView::order("created"@).0);
            return match listed_members(v, &names, 5) {
                Some(o) => TaskEvent::from_object(&o),
                None => TaskEvent::from_object(v),
            };
        }
        if str_eq(tag.as_str(), "queued") {
            let names: [&str; 3] = ["kind", "task_run_id", "ts"];
            assert(key_views(names@) =~= TaskEventView::order("queued"@).0);
            return match listed_members(v, &names, 3) {
                Some(o) => TaskEvent::from_object(&o),
                None => TaskEvent::from_object(v),
            };
        }
        if str_eq(tag.as_str(), "attempt_started") {
            let names: [&str; 4] = ["kind", "task_run_id", "attempt_id", "ts"];
            assert(key_views(names@) =~= TaskEventView::order("attempt_started"@).0);
            return match listed_members(v, &names, 4) {
                Some(o) => TaskEvent::from_object(&o),
                None => TaskEvent::from_object(v),
            };
        }
        if str_eq(tag.as_str(), "attempt_completed") {
            let names: [&str; 5] = ["kind", "task_run_id", "attempt_id", "status", "ts"];
            assert(key_views(names@) =~= TaskEventView::order("attempt_completed"@).0);
            return match listed_members(v, &names, 5) {
                Some(o) => TaskEvent::from_object(&o),
                None => TaskEvent::from_object(v),
            };
        }
        if str_eq(tag.as_str(), "run_completed") {
            let names: [&str; 3] = ["kind", "task_run_id", "ts"];
            assert(key_views(names@) =~= TaskEventView::order("run_completed"@).0);
            return match listed_members(v, &names, 3) {
                Some(o) => TaskEvent::from_object(&o),
                None => TaskEvent::from_object(v),
            };
        }
        if str_eq(tag.as_str(), "run_failed") {
            let names: [&str; 4] = ["kind", "task_run_id", "error", "ts"];
            assert(key_views(names@) =~= TaskEventView::order("run_failed"@).0);
            return match listed_members(v, &names, 4) {
                Some(o) => TaskEvent::from_object(&o),
                None => TaskEvent::from_object(v),
            };
        }
        TaskEvent::from_object(v)
    }

    fn from_object(v: &Json) -> (r: Option<TaskEvent>)
        ensures
            match r {
                Some(x) => TaskEventView::of_object(v@) == Some(x@),
                None => TaskEventView::of_object(v@) is None,
            },
    {
        let tag = match v.text_at("kind") {
            Some(s) => s,
            None => return None,
        };
        if str_eq(tag.as_str(), "created") {
            let task_run_id = match v.text_at("task_run_id") {
                Some(x) => x,
                None => return None,
            };
            let task_id = match v.text_at("task_id") {
                Some(x) => x,
                None => return None,
            };
            let instruction = match v.text_at("instruction") {
                Some(x) => x,
                None => return None,
            };
            let ts = match read_i64(v, "ts") {
                Some(x) => x,
                None => return None,
            };
            Some(TaskEvent::Created { task_run_id, task_id, instruction, ts })
        } else if str_eq(tag.as_str(), "queued") {
            let task_run_id = match v.text_at("task_run_id") {
                Some(x) => x,
                None => return None,
            };
            let ts = match read_i64(v, "ts") {
                Some(x) => x,
                None => return None,
            };
            Some(TaskEvent::Queued { task_run_id, ts })
        } else if str_eq(tag.as_str(), "attempt_started") {
            let task_run_id = match v.text_at("task_run_id") {
                Some(x) => x,
                None => return None,
            };
            let attempt_id = match v.text_at("attempt_id") {
                Some(x) => x,
                None => return None,
            };
            let ts = match read_i64(v, "ts") {
                Some(x) => x,
                None => return None,
            };
            Some(TaskEvent::AttemptStarted { task_run_id, attempt_id, ts })
        } else if str_eq(tag.as_str(), "attempt_completed") {
            let task_run_id = match v.text_at("task_run_id") {
                Some(x) => x,
                None => return None,
            };
            let attempt_id = match v.text_at("attempt_id") {
                Some(x) => x,
                None => return None,
            };
            let status = match v.get("status") {
                Some(j) => match TaskRunStatus::from_tagged_json(j) {
                    Some(x) => x,
                    None => return None,
                },
                None => return None,
            };
            let ts = match read_i64(v, "ts") {
                Some(x) => x,
                None => return None,
            };
            Some(TaskEvent::AttemptCompleted { task_run_id, attempt_id, status, ts })
        } else if str_eq(tag.as_str(), "run_completed") {
            let task_run_id = match v.text_at("task_run_id") {
                Some(x) => x,
                None => return None,
            };
            let ts = match read_i64(v, "ts") {
                Some(x) => x,
                None => return None,
            };
            Some(TaskEvent::RunCompleted { task_run_id, ts })
        } else if str_eq(tag.as_str(), "run_failed") {
            let task_run_id = match v.text_at("task_run_id") {
                Some(x) => x,
                None => return None,
            };
            let error = match v.text_at("error") {
                Some(x) => x,
                None => return None,
            };
            let ts = match read_i64(v, "ts") {
                Some(x) => x,
                None => return None,
            };
            Some(TaskEvent::RunFailed { task_run_id, error, ts })
        } else {
            None
        }
    }
}

/// The events a list holds, as model values.
pub open spec fn task_event_views(v: Seq<TaskEvent>) -> Seq<TaskEventView> {
    Seq::new(v.len(), |i: int| v[i]@)
}

// ---------------------------------------------------------------------------
// The projection
// ---------------------------------------------------------------------------

/// What a prefix of the ledger comes to: the run, once created, and the number
/// of attempts started so far.
pub struct Folded {
    pub run: Option<TaskRunView>,
    pub attempts: nat,
}

pub open spec fn unfolded() -> Folded {
    Folded { run: None, attempts: 0 }
}

impl Folded {
    /// The same with the run, where there is one, in another status.
    pub open spec fn with_status(self, status: TaskRunStatus) -> Folded {
        match self.run {
            Some(r) => Folded { run: Some(TaskRunView { status, ..r }), ..self },
            None => self,
        }
    }

    /// The same with the run, where there is one, finished.
    pub open spec fn finished(self, status: TaskRunStatus, ts: i64) -> Folded {
        match self.run {
            Some(r) => Folded {
                run: Some(TaskRunView { status, finished_at: Some(ts), ..r }),
                ..self
            },
            None => self,
        }
    }

    /// What the ledger comes to with one more event.
    pub open spec fn step(self, e: TaskEventView) -> Folded {
        match e {
            TaskEventView::Created { task_run_id, task_id, instruction, ts } => Folded {
                run: Some(
                    TaskRunView {
                        task_run_id,
                        task_id,
                        status: TaskRunStatus::Created,
                        instruction,
                        started_at: Some(ts),
                        finished_at: None,
                        attempt_count: 0,
                    },
                ),
                ..self
            },
            TaskEventView::Queued { .. } => self.with_status(TaskRunStatus::Queued),
            TaskEventView::AttemptStarted { .. } => Folded {
                run: match self.run {
                    Some(r) => Some(
                        TaskRunView {
                            status: TaskRunStatus::Running,
                            attempt_count: (self.attempts + 1) as u32,
                            ..r
                        },
                    ),
                    None => None,
                },
                attempts: self.attempts + 1,
            },
            TaskEventView::AttemptCompleted { status, .. } => self.with_status(status),
            TaskEventView::RunCompleted { ts, .. } => self.finished(TaskRunStatus::Completed, ts),
            TaskEventView::RunFailed { ts, .. } => self.finished(TaskRunStatus::Failed, ts),
        }
    }
}

/// What `events` come to behind a ledger that came to `from`.
pub open spec fn folded_from(from: Folded, events: Seq<TaskEventView>) -> Folded
    decreases events.len(),
{
    if events.len() == 0 {
        from
    } else {
        folded_from(from, events.drop_last()).step(events.last())
    }
}

/// What a whole ledger comes to.
pub open spec fn folded(events: Seq<TaskEventView>) -> Folded {
    folded_from(unfolded(), events)
}

/// Resuming is sound: folding the rest of a ledger onto what its beginning came
/// to gives what the whole ledger comes to.
pub proof fn law_fold_resumes(from: Folded, before: Seq<TaskEventView>, after: Seq<TaskEventView>)
    ensures
        folded_from(folded_from(from, before), after) == folded_from(from, before + after),
    decreases after.len(),
{
    if after.len() == 0 {
        assert(before + after =~= before);
    } else {
        law_fold_resumes(from, before, after.drop_last());
        assert((before + after).drop_last() =~= before + after.drop_last());
    }
}

/// A ledger projects to a run exactly if it holds a `Created` event.
pub proof fn law_projection_needs_creation(events: Seq<TaskEventView>)
    ensures
        folded(events).run is Some <==> exists|i: int|
            0 <= i < events.len() && (#[trigger] events[i]) is Created,
    decreases events.len(),
{
    if events.len() > 0 {
        let init = events.drop_last();
        law_projection_needs_creation(init);
        if folded(init).run is Some {
            let i = choose|i: int| 0 <= i < init.len() && (#[trigger] init[i]) is Created;
            assert(events[i] is Created);
        }
        if exists|i: int| 0 <= i < events.len() && (#[trigger] events[i]) is Created {
            let i = choose|i: int| 0 <= i < events.len() && (#[trigger] events[i]) is Created;
            if i < init.len() {
                assert(init[i] is Created);
            }
        }
        if events.last() is Created {
            assert(events[events.len() - 1] is Created);
        }
    }
}

proof fn lemma_attempts_grow(events: Seq<TaskEventView>, i: int)
    requires
        0 <= i <= events.len(),
    ensures
        folded(events.take(i)).attempts <= folded(events).attempts,
    decreases events.len() - i,
{
    if i < events.len() {
        lemma_attempts_grow(events, i + 1);
        assert(events.take(i + 1).drop_last() =~= events.take(i));
    } else {
        assert(events.take(i) =~= events);
    }
}

/// Fold a task run's event ledger into its current state. Returns `None` if the
/// ledger has no `Created` event. This is the projection a resume reads to
/// reconstruct a task run across processes.
pub fn project_task_run(events: &[TaskEvent]) -> (r: Option<TaskRun>)
    requires
        folded(task_event_views(events@)).attempts <= u32::MAX,
    ensures
        opt(r) == folded(task_event_views(events@)).run,
{
    let ghost all = task_event_views(events@);
    let mut run: Option<TaskRun> = None;
    let mut attempt_count: u32 = 0;
    let mut i: usize = 0;
    assert(all.take(0) =~= Seq::empty());
    while i < events.len()
        invariant
            i <= events.len(),
            all == task_event_views(events@),
            folded(all).attempts <= u32::MAX,
            opt(run) == folded(all.take(i as int)).run,
            attempt_count == folded(all.take(i as int)).attempts,
        decreases events.len() - i,
    {
        proof {
            assert(all.take(i + 1).drop_last() =~= all.take(i as int));
            assert(all.take(i + 1).last() == all[i as int]);
            lemma_attempts_grow(all, i + 1);
        }
        match &events[i] {
            TaskEvent::Created { task_run_id, task_id, instruction, ts } => {
                run = Some(
                    TaskRun {
                        task_run_id: task_run_id.clone(),
                        task_id: task_id.clone(),
                        status: TaskRunStatus::Created,
                        instruction: instruction.clone(),
                        started_at: Some(*ts),
                        finished_at: None,
                        attempt_count: 0,
                    },
                );
            },
            TaskEvent::Queued { .. } => {
                if let Some(r) = run {
                    run = Some(TaskRun { status: TaskRunStatus::Queued, ..r });
                }
            },
            TaskEvent::AttemptStarted { .. } => {
                attempt_count = attempt_count + 1;
                if let Some(r) = run {
                    run = Some(TaskRun { status: TaskRunStatus::Running, attempt_count, ..r });
                }
            },
            TaskEvent::AttemptCompleted { status, .. } => {
                if let Some(r) = run {
                    run = Some(TaskRun { status: *status, ..r });
                }
            },
            TaskEvent::RunCompleted { ts, .. } => {
                if let Some(r) = run {
                    run = Some(
                        TaskRun { status: TaskRunStatus::Completed, finished_at: Some(*ts), ..r },
                    );
                }
            },
            TaskEvent::RunFailed { ts, .. } => {
                if let Some(r) = run {
                    run = Some(
                        TaskRun { status: TaskRunStatus::Failed, finished_at: Some(*ts), ..r },
                    );
                }
            },
        }
        i = i + 1;
    }
    assert(all.take(i as int) =~= all);
    run
}

// ---------------------------------------------------------------------------
// The ledger store
// ---------------------------------------------------------------------------

/// Persists a task run's event ledger. Each event is appended at a monotonic
/// sequence; reading them back in order and folding via [`project_task_run`]
/// reconstructs the run state across processes.
pub trait TaskRunStore {
    /// Append one event at `sequence` for `task_run_id`.
    fn append_event(&mut self, task_run_id: &str, sequence: i64, event: &TaskEvent) -> StoreResult<
        (),
    >;

    /// Read all events for `task_run_id` in sequence order.
    fn read_events(&self, task_run_id: &str) -> StoreResult<Vec<TaskEvent>>;
}

/// An event and the sequence that it was appended at.
struct TaskEntry {
    sequence: i64,
    event: TaskEvent,
}

/// One run's ledger, in the order in which the events were appended.
struct TaskLedger {
    task_run_id: String,
    entries: Vec<TaskEntry>,
}

/// In-memory [`TaskRunStore`].
pub struct InMemoryTaskRunStore {
    ledgers: Vec<TaskLedger>,
}

/// An event with the sequence that it was appended at.
pub type EntryView = (i64, TaskEventView);

/// The ledgers of a store by task run, each in the order of appending.
pub type Ledgers = Seq<(Seq<char>, Seq<EntryView>)>;

/// `entries` with `x` put behind every entry whose sequence is not greater.
pub open spec fn insert_by_sequence(entries: Seq<EntryView>, x: EntryView) -> Seq<EntryView>
    decreases entries.len(),
{
    if entries.len() == 0 || entries.last().0 <= x.0 {
        entries.push(x)
    } else {
        insert_by_sequence(entries.drop_last(), x).push(entries.last())
    }
}

/// `entries` in ascending sequence, equal sequences in the order they came.
pub open spec fn by_sequence(entries: Seq<EntryView>) -> Seq<EntryView>
    decreases entries.len(),
{
    if entries.len() == 0 {
        entries
    } else {
        insert_by_sequence(by_sequence(entries.drop_last()), entries.last())
    }
}

/// The events of some entries.
pub open spec fn events_of(entries: Seq<EntryView>) -> Seq<TaskEventView> {
    Seq::new(entries.len(), |i: int| entries[i].1)
}

/// No sequence comes after a greater one.
pub open spec fn sequences_in_order(entries: Seq<EntryView>) -> bool {
    forall|i: int, j: int|
        0 <= i < j < entries.len() ==> (#[trigger] entries[i]).0 <= (#[trigger] entries[j]).0
}

/// The entries that were appended at `sequence`, in order.
pub open spec fn entries_at(entries: Seq<EntryView>, sequence: i64) -> Seq<EntryView>
    decreases entries.len(),
{
    if entries.len() == 0 {
        entries
    } else {
        let before = entries_at(entries.drop_last(), sequence);
        if entries.last().0 == sequence {
            before.push(entries.last())
        } else {
            before
        }
    }
}

/// Where the ledger of a task run stands.
pub open spec fn find_ledger(ledgers: Ledgers, task_run_id: Seq<char>) -> Option<int>
    decreases ledgers.len(),
{
    if ledgers.len() == 0 {
        None
    } else if ledgers.last().0 == task_run_id {
        Some(ledgers.len() - 1)
    } else {
        find_ledger(ledgers.drop_last(), task_run_id)
    }
}

/// The ledger of a task run; empty when nothing was appended to it.
pub open spec fn ledger_of(ledgers: Ledgers, task_run_id: Seq<char>) -> Seq<EntryView> {
    match find_ledger(ledgers, task_run_id) {
        Some(i) => ledgers[i].1,
        None => Seq::empty(),
    }
}

/// The events of a task run as they are read: in sequence order.
pub open spec fn events_read(ledgers: Ledgers, task_run_id: Seq<char>) -> Seq<TaskEventView> {
    events_of(by_sequence(ledger_of(ledgers, task_run_id)))
}

/// The ledgers with `e` appended to that of `task_run_id` at `sequence`.
pub open spec fn appended(
    ledgers: Ledgers,
    task_run_id: Seq<char>,
    sequence: i64,
    e: TaskEventView,
) -> Ledgers {
    match find_ledger(ledgers, task_run_id) {
        Some(i) => ledgers.update(i, (ledgers[i].0, ledgers[i].1.push((sequence, e)))),
        None => ledgers.push((task_run_id, seq![(sequence, e)])),
    }
}

impl View for TaskEntry {
    type V = EntryView;

    closed spec fn view(&self) -> EntryView {
        (self.sequence, self.event@)
    }
}

spec fn entry_views(v: Seq<TaskEntry>) -> Seq<EntryView> {
    Seq::new(v.len(), |i: int| v[i]@)
}

impl View for InMemoryTaskRunStore {
    type V = Ledgers;

    closed spec fn view(&self) -> Ledgers {
        Seq::new(
            self.ledgers@.len(),
            |i: int|
                (self.ledgers@[i].task_run_id@, entry_views(self.ledgers@[i].entries@)),
        )
    }
}

impl Default for InMemoryTaskRunStore {
    fn default() -> (r: Self)
        ensures
            r@.len() == 0,
    {
        InMemoryTaskRunStore { ledgers: Vec::new() }
    }
}

impl InMemoryTaskRunStore {
    pub fn new() -> (r: Self)
        ensures
            r@.len() == 0,
    {
        InMemoryTaskRunStore::default()
    }

    fn find(&self, task_run_id: &str) -> (r: Option<usize>)
        ensures
            match r {
                Some(i) => i < self.ledgers@.len() && find_ledger(self@, task_run_id@) == Some(
                    i as int,
                ),
                None => find_ledger(self@, task_run_id@) is None,
            },
    {
        let mut i: usize = self.ledgers.len();
        assert(self@.take(i as int) =~= self@);
        while i > 0
            invariant
                i <= self.ledgers@.len(),
                find_ledger(self@, task_run_id@) == find_ledger(self@.take(i as int), task_run_id@),
            decreases i,
        {
            assert(self@.take(i as int).drop_last() =~= self@.take(i - 1));
            if str_eq(self.ledgers[i - 1].task_run_id.as_str(), task_run_id) {
                return Some(i - 1);
            }
            i = i - 1;
        }
        None
    }
}

impl TaskRunStore for InMemoryTaskRunStore {
    fn append_event(&mut self, task_run_id: &str, sequence: i64, event: &TaskEvent) -> (r:
        StoreResult<()>)
        ensures
            r is Ok,
            final(self)@ == appended(old(self)@, task_run_id@, sequence, event@),
    {
        let ghost before = self@;
        let entry = TaskEntry { sequence, event: event.clone() };
        let ghost added = entry@;
        match self.find(task_run_id) {
            Some(i) => {
                self.ledgers[i].entries.push(entry);
                assert(self@[i as int].1 =~= before[i as int].1.push(added));
                assert(self@ =~= appended(before, task_run_id@, sequence, event@));
            },
            None => {
                let mut entries: Vec<TaskEntry> = Vec::new();
                entries.push(entry);
                assert(entry_views(entries@) =~= seq![added]);
                self.ledgers.push(TaskLedger { task_run_id: task_run_id.to_owned(), entries });
                assert(self@ =~= appended(before, task_run_id@, sequence, event@));
            },
        }
        Ok(())
    }

    fn read_events(&self, task_run_id: &str) -> (r: StoreResult<Vec<TaskEvent>>)
        ensures
            r matches Ok(events) && task_event_views(events@) == events_read(self@, task_run_id@),
    {
        match self.find(task_run_id) {
            Some(i) => Ok(sorted_events(&self.ledgers[i].entries)),
            None => {
                let none: Vec<TaskEvent> = Vec::new();
                assert(task_event_views(none@) =~= events_read(self@, task_run_id@));
                Ok(none)
            },
        }
    }
}

/// The events of `entries` in ascending sequence, equal sequences in the order they
/// came.
fn sorted_events(entries: &Vec<TaskEntry>) -> (r: Vec<TaskEvent>)
    ensures
        task_event_views(r@) == events_of(by_sequence(entry_views(entries@))),
{
    let ghost all = entry_views(entries@);
    let ghost mut sorted: Seq<EntryView> = Seq::empty();
    let mut keys: Vec<i64> = Vec::new();
    let mut out: Vec<TaskEvent> = Vec::new();
    let mut i: usize = 0;
    assert(sorted =~= by_sequence(all.take(0)));
    while i < entries.len()
        invariant
            i <= entries.len(),
            all == entry_views(entries@),
            sorted == by_sequence(all.take(i as int)),
            keys@.len() == sorted.len(),
            out@.len() == sorted.len(),
            forall|k: int|
                0 <= k < sorted.len() ==> (#[trigger] sorted[k]) == (keys@[k], out@[k]@),
        decreases entries.len() - i,
    {
        let entry = &entries[i];
        let ghost x = entry@;
        let ghost before = sorted;
        let mut j: usize = keys.len();
        assert(before.take(j as int) =~= before);
        assert(insert_by_sequence(before, x) =~= insert_by_sequence(before.take(j as int), x)
            + before.skip(j as int));
        while j > 0 && entry.sequence < keys[j - 1]
            invariant
                j <= keys.len(),
                keys@.len() == before.len(),
                x.0 == entry.sequence,
                forall|k: int| 0 <= k < before.len() ==> (#[trigger] before[k]).0 == keys@[k],
                insert_by_sequence(before, x) == insert_by_sequence(before.take(j as int), x)
                    + before.skip(j as int),
            decreases j,
        {
            proof {
                let t = before.take(j as int);
                assert(t.drop_last() =~= before.take(j - 1));
                assert(t.last() == before[j - 1]);
                assert(insert_by_sequence(t, x) == insert_by_sequence(t.drop_last(), x).push(
                    t.last(),
                ));
                assert(insert_by_sequence(t.drop_last(), x).push(t.last()) + before.skip(j as int)
                    =~= insert_by_sequence(t.drop_last(), x) + before.skip(j - 1));
            }
            j = j - 1;
        }
        proof {
            let t = before.take(j as int);
            assert(j > 0 ==> t.last() == before[j - 1]);
            assert(insert_by_sequence(t, x) == t.push(x));
            assert(t.push(x) + before.skip(j as int) =~= before.insert(j as int, x));
            assert(all.take(i + 1).drop_last() =~= all.take(i as int));
            assert(all.take(i + 1).last() == x);
            sorted = before.insert(j as int, x);
        }
        keys.insert(j, entry.sequence);
        out.insert(j, entry.event.clone());
        i = i + 1;
    }
    assert(all.take(i as int) =~= all);
    assert(task_event_views(out@) =~= events_of(sorted));
    out
}

proof fn lemma_find_ledger(ledgers: Ledgers, task_run_id: Seq<char>)
    ensures
        match find_ledger(ledgers, task_run_id) {
            Some(i) => 0 <= i < ledgers.len() && ledgers[i].0 == task_run_id && forall|j: int|
                i < j < ledgers.len() ==> (#[trigger] ledgers[j]).0 != task_run_id,
            None => forall|j: int|
                0 <= j < ledgers.len() ==> (#[trigger] ledgers[j]).0 != task_run_id,
        },
    decreases ledgers.len(),
{
    if ledgers.len() > 0 && ledgers.last().0 != task_run_id {
        let init = ledgers.drop_last();
        lemma_find_ledger(init, task_run_id);
        assert forall|j: int| 0 <= j < ledgers.len() && (match find_ledger(ledgers, task_run_id) {
            Some(i) => i < j,
            None => true,
        }) implies (#[trigger] ledgers[j]).0 != task_run_id by {
            if j < init.len() {
                assert(ledgers[j] == init[j]);
            }
        }
    }
}

proof fn lemma_insert_by_sequence(entries: Seq<EntryView>, x: EntryView, sequence: i64)
    requires
        sequences_in_order(entries),
    ensures
        sequences_in_order(insert_by_sequence(entries, x)),
        insert_by_sequence(entries, x).to_multiset() == entries.to_multiset().insert(x),
        entries_at(insert_by_sequence(entries, x), sequence) == (if x.0 == sequence {
            entries_at(entries, sequence).push(x)
        } else {
            entries_at(entries, sequence)
        }),
    decreases entries.len(),
{
    broadcast use vstd::seq_lib::group_to_multiset_ensures;

    let out = insert_by_sequence(entries, x);
    if entries.len() == 0 || entries.last().0 <= x.0 {
        assert(out.drop_last() =~= entries);
        assert forall|i: int, j: int| 0 <= i < j < out.len() implies (#[trigger] out[i]).0 <= (
        #[trigger] out[j]).0 by {
            if j == entries.len() && i < entries.len() - 1 {
                assert(entries[i].0 <= entries[entries.len() - 1].0);
            }
        }
    } else {
        let init = entries.drop_last();
        let last = entries.last();
        let inner = insert_by_sequence(init, x);
        assert forall|i: int, j: int| 0 <= i < j < init.len() implies (#[trigger] init[i]).0 <= (
        #[trigger] init[j]).0 by {
            assert(entries[i].0 <= entries[j].0);
        }
        lemma_insert_by_sequence(init, x, sequence);
        assert(out.drop_last() =~= inner);
        assert(entries =~= init.push(last));
        assert forall|i: int, j: int| 0 <= i < j < out.len() implies (#[trigger] out[i]).0 <= (
        #[trigger] out[j]).0 by {
            if j == inner.len() {
                assert(inner.to_multiset().count(inner[i]) > 0);
                assert(init.push(x).to_multiset() == inner.to_multiset());
                assert(init.push(x).contains(inner[i]));
                let k = choose|k: int| 0 <= k < init.push(x).len() && init.push(x)[k] == inner[i];
                if k < init.len() {
                    assert(entries[k].0 <= entries[entries.len() - 1].0);
                }
            } else {
                assert(inner[i].0 <= inner[j].0);
            }
        }
    }
}

/// Reading a task run gives each of its events exactly once, in ascending sequence,
/// and those of one sequence in the order in which they were appended.
pub proof fn law_ledger_is_read_in_sequence(entries: Seq<EntryView>, sequence: i64)
    ensures
        sequences_in_order(by_sequence(entries)),
        by_sequence(entries).to_multiset() == entries.to_multiset(),
        entries_at(by_sequence(entries), sequence) == entries_at(entries, sequence),
    decreases entries.len(),
{
    broadcast use vstd::seq_lib::group_to_multiset_ensures;

    if entries.len() > 0 {
        let init = entries.drop_last();
        law_ledger_is_read_in_sequence(init, sequence);
        lemma_insert_by_sequence(by_sequence(init), entries.last(), sequence);
        assert(entries =~= init.push(entries.last()));
    }
}

/// What is appended to a task run joins its ledger under its sequence; at a sequence
/// that none there exceeds it is read behind everything; and no other task run
/// changes.
pub proof fn law_append_reads_back(
    ledgers: Ledgers,
    task_run_id: Seq<char>,
    sequence: i64,
    e: TaskEventView,
)
    ensures
        ledger_of(appended(ledgers, task_run_id, sequence, e), task_run_id) == ledger_of(
            ledgers,
            task_run_id,
        ).push((sequence, e)),
        (forall|i: int|
            0 <= i < ledger_of(ledgers, task_run_id).len() ==> (#[trigger] ledger_of(
                ledgers,
                task_run_id,
            )[i]).0 <= sequence) ==> events_read(
            appended(ledgers, task_run_id, sequence, e),
            task_run_id,
        ) == events_read(ledgers, task_run_id).push(e),
        forall|other: Seq<char>|
            other != task_run_id ==> #[trigger] ledger_of(
                appended(ledgers, task_run_id, sequence, e),
                other,
            ) == ledger_of(ledgers, other),
{
    let now = appended(ledgers, task_run_id, sequence, e);
    lemma_find_ledger(ledgers, task_run_id);
    lemma_find_ledger(now, task_run_id);
    match find_ledger(ledgers, task_run_id) {
        Some(i) => {
            assert(now[i].0 == task_run_id);
            let k = find_ledger(now, task_run_id)->0;
            if k > i {
                assert(now[k] == ledgers[k]);
            }
        },
        None => {
            assert(now[now.len() - 1].0 == task_run_id);
            assert(seq![(sequence, e)] =~= Seq::<EntryView>::empty().push((sequence, e)));
        },
    }
    let entries = ledger_of(ledgers, task_run_id);
    if forall|i: int| 0 <= i < entries.len() ==> (#[trigger] entries[i]).0 <= sequence {
        let sorted = by_sequence(entries);
        law_ledger_is_read_in_sequence(entries, sequence);
        assert(entries.push((sequence, e)).drop_last() =~= entries);
        if sorted.len() > 0 {
            broadcast use vstd::seq_lib::group_to_multiset_ensures;

            assert(sorted.to_multiset().count(sorted.last()) > 0);
            assert(entries.contains(sorted.last()));
        }
        assert(events_of(sorted.push((sequence, e))) =~= events_of(sorted).push(e));
    }
    assert forall|other: Seq<char>| other != task_run_id implies #[trigger] ledger_of(now, other)
        == ledger_of(ledgers, other) by {
        lemma_find_ledger(ledgers, other);
        lemma_find_ledger(now, other);
        match find_ledger(ledgers, other) {
            Some(i) => {
                assert(now[i].0 == other);
                let k = find_ledger(now, other)->0;
                if k < ledgers.len() {
                    assert(ledgers[k].0 == now[k].0);
                }
            },
            None => {
                if let Some(k) = find_ledger(now, other) {
                    if k < ledgers.len() {
                        assert(ledgers[k].0 == now[k].0);
                    }
                }
            },
        }
    }
}

// ---------------------------------------------------------------------------
// The self-check gate
// ---------------------------------------------------------------------------

/// Self-check gate decision after an attempt completes.
#[allow(inconsistent_fields)]
#[derive(Debug, PartialEq)]
pub enum SelfCheckDecision {
    /// The attempt is verified: finalize the task run.
    AllowFinalize { reason: String },
    /// The attempt needs repair: retry with a feedback prompt.
    Repair { reason: String, prompt: String },
    /// Repair budget exhausted: release to an external verifier.
    AllowAfterBounded { reason: String },
}

/// Quality gate evaluated after each successful attempt. Decides whether the
/// task is truly complete, needs a repair retry, or should be released to an
/// external verifier after bounded repair attempts.
pub trait SelfCheckGate {
    fn check(&self, attempt: u32, attempt_status: TaskRunStatus) -> SelfCheckDecision;
}

/// Default gate: always allows finalize (self-check not configured).
pub struct DefaultSelfCheckGate;

impl SelfCheckGate for DefaultSelfCheckGate {
    fn check(&self, attempt: u32, attempt_status: TaskRunStatus) -> (r: SelfCheckDecision)
        ensures
            r matches SelfCheckDecision::AllowFinalize { reason } && reason@
                == "self-check not configured"@,
    {
        SelfCheckDecision::AllowFinalize { reason: "self-check not configured".to_owned() }
    }
}

// ---------------------------------------------------------------------------
// The task loop
// ---------------------------------------------------------------------------

/// How one agent run ended.
#[derive(Debug, Clone, Copy, PartialEq, Eq, Structural)]
pub enum RunStatus {
    Completed,
    Aborted,
    Failed,
}

pub open spec fn attempt_status_of(status: RunStatus) -> TaskRunStatus {
    match status {
        RunStatus::Completed => TaskRunStatus::Completed,
        RunStatus::Aborted => TaskRunStatus::Aborted,
        RunStatus::Failed => TaskRunStatus::Failed,
    }
}

/// What an agent run's end means for the attempt.
pub fn attempt_status(status: RunStatus) -> (r: TaskRunStatus)
    ensures
        r == attempt_status_of(status),
{
    match status {
        RunStatus::Completed => TaskRunStatus::Completed,
        RunStatus::Aborted => TaskRunStatus::Aborted,
        RunStatus::Failed => TaskRunStatus::Failed,
    }
}

/// Where the task loop stands.
#[derive(Debug, Clone, Copy, PartialEq, Eq, Structural)]
pub enum TaskPhase {
    /// The run is to be recorded as created.
    Opening,
    /// The next attempt is to be recorded as started.
    Starting,
    /// The attempt runs.
    Attempting,
    /// The attempt has ended and is to be recorded.
    Recording(TaskRunStatus),
    /// The attempt succeeded and waits for the self-check gate.
    Checking,
    /// The run is to be recorded as completed.
    Completing,
    /// The run is to be recorded as failed.
    Failing,
    /// The ledger is complete.
    Done,
}

/// What the caller of the task loop does next.
#[allow(inconsistent_fields)]
#[derive(Debug, PartialEq)]
pub enum TaskAction {
    /// Append `event` to the ledger at `sequence`.
    Record { sequence: i64, event: TaskEvent },
    /// Run one turn with `prompt` in the fresh session `session_id`.
    Attempt { session_id: String, prompt: String },
    /// Ask the self-check gate about the successful attempt.
    Check { attempt: u32, status: TaskRunStatus },
    /// Read the ledger back and fold it.
    Finish,
}

/// What the caller of the task loop reports back.
#[derive(Debug, PartialEq)]
pub enum TaskFeedback {
    Recorded,
    AttemptEnded(RunStatus),
    Checked(SelfCheckDecision),
}

/// What a task loop knows.
pub struct TaskLoopView {
    pub task_run_id: Seq<char>,
    pub task: TaskDefinitionView,
    pub max_attempts: u32,
    pub attempt: u32,
    pub prompt: Seq<char>,
    pub phase: TaskPhase,
    /// The events recorded so far.
    pub ledger: Seq<TaskEventView>,
    /// How the ended attempts ended.
    pub statuses: Seq<TaskRunStatus>,
}

impl TaskLoopView {
    pub open spec fn attempt_id(self, attempt: u32) -> Seq<char> {
        self.task_run_id + "-a"@ + decimal(attempt as nat)
    }

    pub open spec fn session_id(self) -> Seq<char> {
        self.task_run_id + "-s"@ + decimal(self.attempt as nat)
    }

    pub open spec fn created(self) -> TaskEventView {
        TaskEventView::Created {
            task_run_id: self.task_run_id,
            task_id: self.task.task_id,
            instruction: self.task.instruction,
            ts: 0,
        }
    }

    pub open spec fn started(self, attempt: u32, ts: i64) -> TaskEventView {
        TaskEventView::AttemptStarted {
            task_run_id: self.task_run_id,
            attempt_id: self.attempt_id(attempt),
            ts,
        }
    }

    pub open spec fn completed(self, attempt: u32, status: TaskRunStatus, ts: i64) -> TaskEventView {
        TaskEventView::AttemptCompleted {
            task_run_id: self.task_run_id,
            attempt_id: self.attempt_id(attempt),
            status,
            ts,
        }
    }

    /// The event to record next.
    pub open spec fn pending(self) -> Option<TaskEventView> {
        let ts = self.ledger.len() as i64;
        match self.phase {
            TaskPhase::Opening => Some(self.created()),
            TaskPhase::Starting => Some(self.started(self.attempt, ts)),
            TaskPhase::Recording(status) => Some(self.completed(self.attempt, status, ts)),
            TaskPhase::Completing => Some(
                TaskEventView::RunCompleted { task_run_id: self.task_run_id, ts },
            ),
            TaskPhase::Failing => Some(
                TaskEventView::RunFailed {
                    task_run_id: self.task_run_id,
                    error: "exhausted "@ + decimal(self.max_attempts as nat) + " attempts"@,
                    ts,
                },
            ),
            _ => None,
        }
    }

    /// The loop behind an attempt that did not settle the task: another attempt
    /// while there are any left.
    pub open spec fn again(self, prompt: Seq<char>) -> TaskLoopView {
        if self.attempt + 1 < self.max_attempts {
            TaskLoopView {
                phase: TaskPhase::Starting,
                attempt: (self.attempt + 1) as u32,
                prompt,
                ..self
            }
        } else {
            TaskLoopView { phase: TaskPhase::Failing, ..self }
        }
    }

    /// The loop once the pending event is in the ledger.
    pub open spec fn recorded(self) -> TaskLoopView {
        match self.pending() {
            Some(e) => {
                let next = TaskLoopView { ledger: self.ledger.push(e), ..self };
                match self.phase {
                    TaskPhase::Opening => if self.max_attempts > 0 {
                        TaskLoopView { phase: TaskPhase::Starting, ..next }
                    } else {
                        TaskLoopView { phase: TaskPhase::Failing, ..next }
                    },
                    TaskPhase::Starting => TaskLoopView { phase: TaskPhase::Attempting, ..next },
                    TaskPhase::Recording(status) => {
                        let ended = TaskLoopView { statuses: self.statuses.push(status), ..next };
                        if status is Completed {
                            TaskLoopView { phase: TaskPhase::Checking, ..ended }
                        } else {
                            ended.again(self.task.instruction)
                        }
                    },
                    _ => TaskLoopView { phase: TaskPhase::Done, ..next },
                }
            },
            None => self,
        }
    }

    /// The loop once the attempt has ended.
    pub open spec fn attempt_ended(self, status: RunStatus) -> TaskLoopView {
        if self.phase is Attempting {
            TaskLoopView { phase: TaskPhase::Recording(attempt_status_of(status)), ..self }
        } else {
            self
        }
    }

    /// The loop once the self-check gate has decided: a repair retries with its prompt.
    pub open spec fn checked(self, decision: SelfCheckDecision) -> TaskLoopView {
        if self.phase is Checking {
            match decision {
                SelfCheckDecision::Repair { prompt, .. } => self.again(prompt@),
                _ => TaskLoopView { phase: TaskPhase::Completing, ..self },
            }
        } else {
            self
        }
    }

    /// The loop behind a report; one that does not fit where it stands changes
    /// nothing.
    pub open spec fn after(self, feedback: TaskFeedback) -> TaskLoopView {
        match feedback {
            TaskFeedback::Recorded => self.recorded(),
            TaskFeedback::AttemptEnded(status) => self.attempt_ended(status),
            TaskFeedback::Checked(decision) => self.checked(decision),
        }
    }

    /// The ledger of the attempts that have ended.
    pub open spec fn ended_ledger(self, statuses: Seq<TaskRunStatus>) -> Seq<TaskEventView>
        decreases statuses.len(),
    {
        if statuses.len() == 0 {
            seq![self.created()]
        } else {
            let k = (statuses.len() - 1) as u32;
            self.ended_ledger(statuses.drop_last()).push(self.started(k, (1 + 2 * k) as i64)).push(
                self.completed(k, statuses.last(), (2 + 2 * k) as i64),
            )
        }
    }

    /// The ledger is what the attempts so far make it, event by event at its own
    /// place, and no attempt exceeds the budget.
    pub open spec fn wf(self) -> bool {
        let n = self.statuses.len();
        let done = self.ended_ledger(self.statuses);
        &&& n <= self.max_attempts
        &&& done.len() == 1 + 2 * n
        &&& match self.phase {
            TaskPhase::Opening => n == 0 && self.attempt == 0 && self.ledger == Seq::<
                TaskEventView,
            >::empty(),
            TaskPhase::Starting => self.attempt == n && n < self.max_attempts && self.ledger == done,
            TaskPhase::Attempting | TaskPhase::Recording(_) => self.attempt == n && n
                < self.max_attempts && self.ledger == done.push(
                self.started(n as u32, (1 + 2 * n) as i64),
            ),
            TaskPhase::Checking | TaskPhase::Completing => self.attempt + 1 == n && self.ledger
                == done && self.statuses.last() is Completed,
            TaskPhase::Failing => n == self.max_attempts && self.ledger == done,
            TaskPhase::Done => (n > 0 && self.statuses.last() is Completed && self.ledger
                == done.push(self.completion())) || (n == self.max_attempts && self.ledger
                == done.push(self.failure())),
        }
    }

    pub open spec fn completion(self) -> TaskEventView {
        TaskEventView::RunCompleted {
            task_run_id: self.task_run_id,
            ts: (1 + 2 * self.statuses.len()) as i64,
        }
    }

    pub open spec fn failure(self) -> TaskEventView {
        TaskEventView::RunFailed {
            task_run_id: self.task_run_id,
            error: "exhausted "@ + decimal(self.max_attempts as nat) + " attempts"@,
            ts: (1 + 2 * self.statuses.len()) as i64,
        }
    }
}

/// Drives a task to completion: repeated attempts, each a fresh session turn,
/// until the self-check gate lets one that succeeded through or the attempts are exhausted.
/// Every transition goes to the ledger first, so the run is durable and
/// resumable.
pub struct TaskLoop {
    task_run_id: String,
    task: TaskDefinition,
    max_attempts: u32,
    attempt: u32,
    prompt: String,
    phase: TaskPhase,
    sequence: i64,
    ledger: Ghost<Seq<TaskEventView>>,
    statuses: Ghost<Seq<TaskRunStatus>>,
}

impl View for TaskLoop {
    type V = TaskLoopView;

    closed spec fn view(&self) -> TaskLoopView {
        TaskLoopView {
            task_run_id: self.task_run_id@,
            task: self.task@,
            max_attempts: self.max_attempts,
            attempt: self.attempt,
            prompt: self.prompt@,
            phase: self.phase,
            ledger: self.ledger@,
            statuses: self.statuses@,
        }
    }
}

impl TaskLoop {
    pub closed spec fn wf(&self) -> bool {
        self@.wf() && self.sequence == self@.ledger.len()
    }

    /// A well-formed loop's ledger is what its attempts make it.
    pub proof fn lemma_wf(&self)
        requires
            self.wf(),
        ensures
            self@.wf(),
    {
    }

    pub fn new(task_run_id: &str, task: &TaskDefinition, max_attempts: u32) -> (r: Self)
        ensures
            r.wf(),
            r@ == (TaskLoopView {
                task_run_id: task_run_id@,
                task: task@,
                max_attempts,
                attempt: 0,
                prompt: task@.instruction,
                phase: TaskPhase::Opening,
                ledger: Seq::empty(),
                statuses: Seq::empty(),
            }),
    {
        TaskLoop {
            task_run_id: task_run_id.to_owned(),
            task: task.clone(),
            max_attempts,
            attempt: 0,
            prompt: task.instruction.clone(),
            phase: TaskPhase::Opening,
            sequence: 0,
            ledger: Ghost(Seq::empty()),
            statuses: Ghost(Seq::empty()),
        }
    }

    fn attempt_id(&self) -> (r: String)
        ensures
            r@ == self@.attempt_id(self@.attempt),
    {
        concat3(self.task_run_id.as_str(), "-a", decimal_text(self.attempt as u64).as_str())
    }

    fn pending_event(&self) -> (r: Option<TaskEvent>)
        requires
            self.wf(),
        ensures
            opt(r) == self@.pending(),
    {
        let task_run_id = self.task_run_id.clone();
        let ts = self.sequence;
        match self.phase {
            TaskPhase::Opening => Some(
                TaskEvent::Created {
                    task_run_id,
                    task_id: self.task.task_id.clone(),
                    instruction: self.task.instruction.clone(),
                    ts,
                },
            ),
            TaskPhase::Starting => Some(
                TaskEvent::AttemptStarted { task_run_id, attempt_id: self.attempt_id(), ts },
            ),
            TaskPhase::Recording(status) => Some(
                TaskEvent::AttemptCompleted {
                    task_run_id,
                    attempt_id: self.attempt_id(),
                    status,
                    ts,
                },
            ),
            TaskPhase::Completing => Some(TaskEvent::RunCompleted { task_run_id, ts }),
            TaskPhase::Failing => {
                let count = decimal_text(self.max_attempts as u64);
                Some(
                    TaskEvent::RunFailed {
                        task_run_id,
                        error: concat3("exhausted ", count.as_str(), " attempts"),
                        ts,
                    },
                )
            },
            _ => None,
        }
    }

    /// What to do next.
    pub fn action(&self) -> (r: TaskAction)
        requires
            self.wf(),
        ensures
            match r {
                TaskAction::Record { sequence, event } => self@.pending() == Some(event@)
                    && sequence == self@.ledger.len(),
                TaskAction::Attempt { session_id, prompt } => self@.phase is Attempting
                    && session_id@ == self@.session_id() && prompt@ == self@.prompt,
                TaskAction::Check { attempt, status } => self@.phase is Checking && attempt
                    == self@.attempt && status is Completed,
                TaskAction::Finish => self@.phase is Done,
            },
    {
        match self.pending_event() {
            Some(event) => TaskAction::Record { sequence: self.sequence, event },
            None => match self.phase {
                TaskPhase::Attempting => TaskAction::Attempt {
                    session_id: concat3(
                        self.task_run_id.as_str(),
                        "-s",
                        decimal_text(self.attempt as u64).as_str(),
                    ),
                    prompt: self.prompt.clone(),
                },
                TaskPhase::Checking => TaskAction::Check {
                    attempt: self.attempt,
                    status: TaskRunStatus::Completed,
                },
                _ => TaskAction::Finish,
            },
        }
    }

    fn again(&mut self, prompt: String)
        ensures
            final(self)@ == old(self)@.again(prompt@),
            final(self).sequence == old(self).sequence,
    {
        if self.max_attempts > 0 && self.attempt < self.max_attempts - 1 {
            self.attempt = self.attempt + 1;
            self.prompt = prompt;
            self.phase = TaskPhase::Starting;
        } else {
            self.phase = TaskPhase::Failing;
        }
    }

    fn recorded(&mut self)
        requires
            old(self).wf(),
        ensures
            final(self)@ == old(self)@.recorded(),
            final(self).wf(),
    {
        let ghost before = self@;
        proof {
            lemma_ledger_lengths(before, before.statuses);
        }
        let phase = self.phase;
        match phase {
            TaskPhase::Attempting | TaskPhase::Checking | TaskPhase::Done => {
                return ;
            },
            _ => {},
        }
        self.ledger = Ghost(before.ledger.push(before.pending()->0));
        self.sequence = self.sequence + 1;
        match phase {
            TaskPhase::Opening => {
                self.phase = if self.max_attempts > 0 {
                    TaskPhase::Starting
                } else {
                    TaskPhase::Failing
                };
            },
            TaskPhase::Starting => {
                self.phase = TaskPhase::Attempting;
            },
            TaskPhase::Recording(status) => {
                self.statuses = Ghost(before.statuses.push(status));
                match status {
                    TaskRunStatus::Completed => {
                        self.phase = TaskPhase::Checking;
                    },
                    _ => {
                        let instruction = self.task.instruction.clone();
                        self.again(instruction);
                    },
                }
            },
            _ => {
                self.phase = TaskPhase::Done;
            },
        }
        proof {
            lemma_recorded_wf(before);
            assert(self@ == before.recorded());
        }
    }

    /// Takes in what came of the last action. A report that does not fit where
    /// the loop stands changes nothing.
    pub fn advance(&mut self, feedback: TaskFeedback)
        requires
            old(self).wf(),
        ensures
            final(self).wf(),
            final(self)@ == old(self)@.after(feedback),
    {
        proof {
            law_loop_keeps_its_ledger(self@, feedback);
        }
        match feedback {
            TaskFeedback::Recorded => self.recorded(),
            TaskFeedback::AttemptEnded(status) => match self.phase {
                TaskPhase::Attempting => {
                    self.phase = TaskPhase::Recording(attempt_status(status));
                },
                _ => {},
            },
            TaskFeedback::Checked(decision) => match self.phase {
                TaskPhase::Checking => match decision {
                    SelfCheckDecision::Repair { prompt, .. } => self.again(prompt),
                    _ => {
                        self.phase = TaskPhase::Completing;
                    },
                },
                _ => {},
            },
        }
    }
}

proof fn lemma_ledger_lengths(view: TaskLoopView, statuses: Seq<TaskRunStatus>)
    ensures
        view.ended_ledger(statuses).len() == 1 + 2 * statuses.len(),
    decreases statuses.len(),
{
    if statuses.len() > 0 {
        lemma_ledger_lengths(view, statuses.drop_last());
    }
}

proof fn lemma_ended_ledger_same(a: TaskLoopView, b: TaskLoopView, statuses: Seq<TaskRunStatus>)
    requires
        a.task_run_id == b.task_run_id,
        a.task == b.task,
    ensures
        a.ended_ledger(statuses) == b.ended_ledger(statuses),
    decreases statuses.len(),
{
    if statuses.len() > 0 {
        lemma_ended_ledger_same(a, b, statuses.drop_last());
    }
}

proof fn lemma_recorded_wf(v: TaskLoopView)
    requires
        v.wf(),
    ensures
        v.recorded().wf(),
        v.pending() is Some ==> v.recorded().ledger.len() == v.ledger.len() + 1,
{
    let next = v.recorded();
    lemma_ended_ledger_same(v, next, v.statuses);
    lemma_ended_ledger_same(v, next, next.statuses);
    lemma_ledger_lengths(next, next.statuses);
    if let TaskPhase::Recording(status) = v.phase {
        assert(v.statuses.push(status).drop_last() =~= v.statuses);
    }
    if v.phase is Opening {
        assert(next.ledger =~= seq![v.created()]);
    }
}

/// A report keeps the ledger what the attempts make it.
pub proof fn law_loop_keeps_its_ledger(v: TaskLoopView, feedback: TaskFeedback)
    requires
        v.wf(),
    ensures
        v.after(feedback).wf(),
        v.ledger.is_prefix_of(v.after(feedback).ledger),
{
    lemma_recorded_wf(v);
    let next = v.after(feedback);
    lemma_ended_ledger_same(v, next, v.statuses);
    if v.pending() is Some && feedback is Recorded {
        assert(next.ledger =~= v.ledger.push(v.pending()->0));
    }
    assert(v.ledger =~= next.ledger.take(v.ledger.len() as int));
}

/// A run is completed only once the self-check has let its last attempt through.
pub proof fn law_completion_follows_the_check(v: TaskLoopView, feedback: TaskFeedback)
    ensures
        !(v.phase is Completing) && v.after(feedback).phase is Completing ==> v.phase is Checking
            && (feedback matches TaskFeedback::Checked(d) && !(d is Repair)),
        !(v.phase is Done) && v.after(feedback).phase is Done ==> v.phase is Completing
            || v.phase is Failing,
        v.phase is Failing ==> !(v.after(feedback).phase is Completing),
{
}

proof fn lemma_ended_ledger_folds(v: TaskLoopView, statuses: Seq<TaskRunStatus>)
    ensures
        folded(v.ended_ledger(statuses)) == (Folded {
            run: Some(
                TaskRunView {
                    task_run_id: v.task_run_id,
                    task_id: v.task.task_id,
                    status: if statuses.len() == 0 {
                        TaskRunStatus::Created
                    } else {
                        statuses.last()
                    },
                    instruction: v.task.instruction,
                    started_at: Some(0),
                    finished_at: None,
                    attempt_count: statuses.len() as u32,
                },
            ),
            attempts: statuses.len(),
        }),
    decreases statuses.len(),
{
    let all = v.ended_ledger(statuses);
    if statuses.len() == 0 {
        assert(all.drop_last() =~= Seq::empty());
        assert(folded_from(unfolded(), all.drop_last()) == unfolded());
        assert(folded(all) == unfolded().step(v.created()));
    } else {
        let init = v.ended_ledger(statuses.drop_last());
        lemma_ended_ledger_folds(v, statuses.drop_last());
        let k = (statuses.len() - 1) as u32;
        let one = init.push(v.started(k, (1 + 2 * k) as i64));
        assert(all.drop_last() =~= one);
        assert(one.drop_last() =~= init);
        assert(folded(one) == folded(init).step(one.last()));
        assert(folded(all) == folded(one).step(all.last()));
    }
}

/// A finished loop's ledger folds to a terminal run that counts its attempts,
/// never more than allowed. It is completed only behind a successful attempt, and
/// failed only once the attempts are exhausted.
pub proof fn law_finished_task(v: TaskLoopView)
    requires
        v.wf(),
        v.phase is Done,
    ensures
        folded(v.ledger).run matches Some(r) && {
            &&& r.status is Completed || r.status is Failed
            &&& r.attempt_count == v.statuses.len() <= v.max_attempts
            &&& r.task_run_id == v.task_run_id
            &&& r.finished_at is Some
            &&& r.status is Completed <==> v.ledger.last() == v.completion()
            &&& r.status is Completed ==> v.statuses.len() > 0 && v.statuses.last() is Completed
            &&& r.status is Failed ==> v.statuses.len() == v.max_attempts
        },
{
    let done = v.ended_ledger(v.statuses);
    lemma_ended_ledger_folds(v, v.statuses);
    assert(v.ledger.drop_last() =~= done);
    assert(folded(v.ledger) == folded(done).step(v.ledger.last()));
}

/// What a finished task comes to: the fold of the ledger read back, or a failed
/// run when it holds none.
pub open spec fn task_result(
    events: Seq<TaskEventView>,
    task_run_id: Seq<char>,
    task: TaskDefinitionView,
) -> TaskRunView {
    match folded(events).run {
        Some(r) => r,
        None => TaskRunView {
            task_run_id,
            task_id: task.task_id,
            status: TaskRunStatus::Failed,
            instruction: task.instruction,
            started_at: None,
            finished_at: None,
            attempt_count: 0,
        },
    }
}

/// What a finished task comes to, from its ledger as read back.
pub fn finish_task(events: &[TaskEvent], task_run_id: &str, task: &TaskDefinition) -> (r: TaskRun)
    requires
        folded(task_event_views(events@)).attempts <= u32::MAX,
    ensures
        r@ == task_result(task_event_views(events@), task_run_id@, task@),
{
    match project_task_run(events) {
        Some(run) => run,
        None => TaskRun {
            task_run_id: task_run_id.to_owned(),
            task_id: task.task_id.clone(),
            status: TaskRunStatus::Failed,
            instruction: task.instruction.clone(),
            started_at: None,
            finished_at: None,
            attempt_count: 0,
        },
    }
}

// ---------------------------------------------------------------------------
// What a task loop does from beginning to end
// ---------------------------------------------------------------------------

/// The loop of a task that has got some reports.
pub open spec fn loop_after(start: TaskLoopView, reports: Seq<TaskFeedback>) -> TaskLoopView
    decreases reports.len(),
{
    if reports.len() == 0 {
        start
    } else {
        loop_after(start, reports.drop_last()).after(reports.last())
    }
}

/// The prompt of the last repair among some reports that came when an attempt waited for
/// the check and there were attempts left, and behind which no attempt has ended.
pub open spec fn repair_asked(start: TaskLoopView, reports: Seq<TaskFeedback>) -> Option<Seq<char>>
    decreases reports.len(),
{
    if reports.len() == 0 {
        None
    } else {
        let before = loop_after(start, reports.drop_last());
        match reports.last() {
            TaskFeedback::Checked(SelfCheckDecision::Repair { prompt, .. }) => if
                before.phase is Checking {
                Some(prompt@)
            } else {
                repair_asked(start, reports.drop_last())
            },
            TaskFeedback::Recorded => if before.phase is Recording {
                None
            } else {
                repair_asked(start, reports.drop_last())
            },
            _ => repair_asked(start, reports.drop_last()),
        }
    }
}

/// Each attempt is sent the task's instruction, or, where the self-check asked for a
/// repair of the attempt before it, the prompt of that repair.
pub proof fn law_attempts_are_sent_the_instruction(
    task_run_id: &str,
    task: &TaskDefinition,
    max_attempts: u32,
    start: TaskLoop,
    reports: Seq<TaskFeedback>,
)
    requires
        call_ensures(TaskLoop::new, (task_run_id, task, max_attempts), start),
    ensures
        ({
            let v = loop_after(start@, reports);
            v.phase is Starting || v.phase is Attempting ==> v.prompt == (match repair_asked(
                start@,
                reports,
            ) {
                Some(prompt) => prompt,
                None => task.instruction@,
            })
        }),
        loop_after(start@, reports).task.instruction == task.instruction@,
        loop_after(start@, reports).task.task_id == task.task_id@,
        loop_after(start@, reports).task_run_id == task_run_id@,
        loop_after(start@, reports).max_attempts == max_attempts,
    decreases reports.len(),
{
    if reports.len() > 0 {
        law_attempts_are_sent_the_instruction(
            task_run_id,
            task,
            max_attempts,
            start,
            reports.drop_last(),
        );
        lemma_prompt_waits(start@, reports.drop_last());
    } else {
        assert(start@.phase is Opening);
    }
}

/// No repair is remembered while the task is opened or its attempt waits for the check.
proof fn lemma_prompt_waits(start: TaskLoopView, reports: Seq<TaskFeedback>)
    requires
        start.phase is Opening,
        start.prompt == start.task.instruction,
    ensures
        ({
            let v = loop_after(start, reports);
            &&& v.phase is Opening ==> v.prompt == v.task.instruction && repair_asked(
                start,
                reports,
            ) is None
            &&& v.phase is Checking ==> repair_asked(start, reports) is None
            &&& v.task == start.task
        }),
    decreases reports.len(),
{
    if reports.len() > 0 {
        lemma_prompt_waits(start, reports.drop_last());
    }
}

/// What the loop asks for is what its task needs: an attempt runs in a session of its
/// own, named after the task run and the attempt, with the prompt that the loop holds;
/// what is recorded carries the task run's id; and a check is asked for only behind a
/// completed attempt.
pub proof fn law_actions_are_of_the_task(l: &TaskLoop, r: TaskAction)
    requires
        l.wf(),
        call_ensures(TaskLoop::action, (l,), r),
    ensures
        l@.phase is Attempting <==> r is Attempt,
        l@.phase is Checking <==> r is Check,
        l@.phase is Done <==> r is Finish,
        r matches TaskAction::Attempt { session_id, prompt } ==> prompt@ == l@.prompt && session_id@
            == l@.task_run_id + "-s"@ + decimal(l@.attempt as nat),
        r matches TaskAction::Check { attempt, status } ==> attempt == l@.attempt
            && status is Completed,
        r matches TaskAction::Record { sequence, event } ==> sequence == l@.ledger.len() && (
        match event@ {
            TaskEventView::Created { task_run_id, task_id, instruction, .. } => task_run_id
                == l@.task_run_id && task_id == l@.task.task_id && instruction
                == l@.task.instruction && l@.ledger.len() == 0,
            TaskEventView::AttemptStarted { task_run_id, attempt_id, .. } => task_run_id
                == l@.task_run_id && attempt_id == l@.task_run_id + "-a"@ + decimal(
                l@.attempt as nat,
            ) && l@.phase is Starting,
            TaskEventView::AttemptCompleted { task_run_id, attempt_id, status, .. } => task_run_id
                == l@.task_run_id && attempt_id == l@.task_run_id + "-a"@ + decimal(
                l@.attempt as nat,
            ) && l@.phase == TaskPhase::Recording(status),
            TaskEventView::RunCompleted { task_run_id, .. } => task_run_id == l@.task_run_id
                && l@.phase is Completing,
            TaskEventView::RunFailed { task_run_id, error, .. } => task_run_id == l@.task_run_id
                && l@.phase is Failing && error == "exhausted "@ + decimal(
                l@.max_attempts as nat,
            ) + " attempts"@,
            TaskEventView::Queued { .. } => false,
        }),
{
    assert(l@.wf()) by {
        l.lemma_wf();
    }
}

/// A step of the loop: an attempt that did not succeed, or was sent to repair, is
/// followed by the next one while there are any left, and by failure only when there are
/// none; an attempt that succeeded is checked; and what ended is recorded as it ended.
pub proof fn law_attempts_are_repeated(v: TaskLoopView, report: TaskFeedback)
    requires
        v.wf(),
    ensures
        ({
            let n = v.after(report);
            match (v.phase, report) {
                (TaskPhase::Opening, TaskFeedback::Recorded) => if v.max_attempts > 0 {
                    n.phase is Starting && n.attempt == 0
                } else {
                    n.phase is Failing
                },
                (TaskPhase::Starting, TaskFeedback::Recorded) => n.phase is Attempting && n.attempt
                    == v.attempt,
                (TaskPhase::Attempting, TaskFeedback::AttemptEnded(ended)) => n.phase
                    == TaskPhase::Recording(
                    match ended {
                        RunStatus::Completed => TaskRunStatus::Completed,
                        RunStatus::Aborted => TaskRunStatus::Aborted,
                        RunStatus::Failed => TaskRunStatus::Failed,
                    },
                ),
                (TaskPhase::Recording(status), TaskFeedback::Recorded) => n.statuses
                    == v.statuses.push(status) && (if status is Completed {
                    n.phase is Checking
                } else if v.attempt + 1 < v.max_attempts {
                    n.phase is Starting && n.attempt == v.attempt + 1
                } else {
                    n.phase is Failing
                }),
                (TaskPhase::Checking, TaskFeedback::Checked(decision)) => if !(decision is Repair) {
                    n.phase is Completing
                } else if v.attempt + 1 < v.max_attempts {
                    n.phase is Starting && n.attempt == v.attempt + 1
                } else {
                    n.phase is Failing
                },
                (TaskPhase::Completing, TaskFeedback::Recorded) => n.phase is Done,
                (TaskPhase::Failing, TaskFeedback::Recorded) => n.phase is Done,
                _ => n == v,
            }
        }),
{
}

/// How many of some events start an attempt.
pub open spec fn attempts_started(events: Seq<TaskEventView>) -> nat {
    events.filter(|e: TaskEventView| e is AttemptStarted).len()
}

proof fn lemma_attempts_counted(events: Seq<TaskEventView>)
    ensures
        folded(events).attempts == attempts_started(events),
    decreases events.len(),
{
    reveal(Seq::filter);
    if events.len() > 0 {
        lemma_attempts_counted(events.drop_last());
        assert(folded(events) == folded(events.drop_last()).step(events.last()));
    }
}

/// What one more event makes of a task run: it is in the status that the event says, it
/// is finished when the run is recorded as over and at no other time, it counts the
/// attempts that were started, and it keeps what it was created with.
pub proof fn law_the_ledger_makes_the_run(events: Seq<TaskEventView>, e: TaskEventView)
    ensures
        ({
            let before = folded(events).run;
            let after = folded(events.push(e)).run;
            match e {
                TaskEventView::Created { task_run_id, task_id, instruction, ts } => after == Some(
                    TaskRunView {
                        task_run_id,
                        task_id,
                        status: TaskRunStatus::Created,
                        instruction,
                        started_at: Some(ts),
                        finished_at: None,
                        attempt_count: 0,
                    },
                ),
                _ => match before {
                    None => after is None,
                    Some(b) => after matches Some(a) && {
                        &&& a.task_run_id == b.task_run_id
                        &&& a.task_id == b.task_id
                        &&& a.instruction == b.instruction
                        &&& a.started_at == b.started_at
                        &&& a.status == (match e {
                            TaskEventView::Queued { .. } => TaskRunStatus::Queued,
                            TaskEventView::AttemptStarted { .. } => TaskRunStatus::Running,
                            TaskEventView::AttemptCompleted { status, .. } => status,
                            TaskEventView::RunCompleted { .. } => TaskRunStatus::Completed,
                            TaskEventView::RunFailed { .. } => TaskRunStatus::Failed,
                            _ => b.status,
                        })
                        &&& a.finished_at == (match e {
                            TaskEventView::RunCompleted { ts, .. } => Some(ts),
                            TaskEventView::RunFailed { ts, .. } => Some(ts),
                            _ => b.finished_at,
                        })
                        &&& a.attempt_count == (if e is AttemptStarted {
                            attempts_started(events.push(e)) as u32
                        } else {
                            b.attempt_count
                        })
                    },
                },
            }
        }),
{
    lemma_attempts_counted(events);
    lemma_attempts_counted(events.push(e));
    assert(events.push(e).drop_last() =~= events);
    assert(folded(events.push(e)) == folded(events).step(e));
}

/// Exactly these statuses end a task run.
pub proof fn law_terminal_statuses(s: TaskRunStatus, r: bool)
    requires
        call_ensures(TaskRunStatus::is_terminal, (s,), r),
    ensures
        r <==> s is Completed || s is Failed || s is Incomplete || s is Blocked || s is PolicyDenied
            || s is BudgetExhausted || s is Aborted || s is Cancelled,
{
}

impl TaskEventView {
    /// The members of the JSON object, each under its own name.
    pub proof fn law_members(self)
        ensures
            match self {
                TaskEventView::Created { task_run_id, task_id, instruction, ts } => {
                    &&& self.json().get("instruction"@) == (Some(JsonView::Text(instruction)))
                    &&& self.json().get("kind"@) == (Some(JsonView::Text("created"@)))
                    &&& self.json().get("task_id"@) == (Some(JsonView::Text(task_id)))
                    &&& self.json().get("task_run_id"@) == (Some(JsonView::Text(task_run_id)))
                    &&& self.json().get("ts"@) == (Some(JsonView::Number(ts as int)))
                },
                TaskEventView::Queued { task_run_id, ts } => {
                    &&& self.json().get("kind"@) == (Some(JsonView::Text("queued"@)))
                    &&& self.json().get("task_run_id"@) == (Some(JsonView::Text(task_run_id)))
                    &&& self.json().get("ts"@) == (Some(JsonView::Number(ts as int)))
                },
                TaskEventView::AttemptStarted { task_run_id, attempt_id, ts } => {
                    &&& self.json().get("attempt_id"@) == (Some(JsonView::Text(attempt_id)))
                    &&& self.json().get("kind"@) == (Some(JsonView::Text("attempt_started"@)))
                    &&& self.json().get("task_run_id"@) == (Some(JsonView::Text(task_run_id)))
                    &&& self.json().get("ts"@) == (Some(JsonView::Number(ts as int)))
                },
                TaskEventView::AttemptCompleted { task_run_id, attempt_id, status, ts } => {
                    &&& self.json().get("attempt_id"@) == (Some(JsonView::Text(attempt_id)))
                    &&& self.json().get("kind"@) == (Some(JsonView::Text("attempt_completed"@)))
                    &&& self.json().get("status"@) == (Some(status.json()))
                    &&& self.json().get("task_run_id"@) == (Some(JsonView::Text(task_run_id)))
                    &&& self.json().get("ts"@) == (Some(JsonView::Number(ts as int)))
                },
                TaskEventView::RunCompleted { task_run_id, ts } => {
                    &&& self.json().get("kind"@) == (Some(JsonView::Text("run_completed"@)))
                    &&& self.json().get("task_run_id"@) == (Some(JsonView::Text(task_run_id)))
                    &&& self.json().get("ts"@) == (Some(JsonView::Number(ts as int)))
                },
                TaskEventView::RunFailed { task_run_id, error, ts } => {
                    &&& self.json().get("error"@) == (Some(JsonView::Text(error)))
                    &&& self.json().get("kind"@) == (Some(JsonView::Text("run_failed"@)))
                    &&& self.json().get("task_run_id"@) == (Some(JsonView::Text(task_run_id)))
                    &&& self.json().get("ts"@) == (Some(JsonView::Number(ts as int)))
                },
            },
    {
        let f = self.fields();
        self.lemma_keys();
        match self {
            TaskEventView::Created { .. } => {
                lemma_lookup(f, 0);
                lemma_lookup(f, 1);
                lemma_lookup(f, 2);
                lemma_lookup(f, 3);
                lemma_lookup(f, 4);
            },
            TaskEventView::Queued { .. } => {
                lemma_lookup(f, 0);
                lemma_lookup(f, 1);
                lemma_lookup(f, 2);
            },
            TaskEventView::AttemptStarted { .. } => {
                lemma_lookup(f, 0);
                lemma_lookup(f, 1);
                lemma_lookup(f, 2);
                lemma_lookup(f, 3);
            },
            TaskEventView::AttemptCompleted { .. } => {
                lemma_lookup(f, 0);
                lemma_lookup(f, 1);
                lemma_lookup(f, 2);
                lemma_lookup(f, 3);
                lemma_lookup(f, 4);
            },
            TaskEventView::RunCompleted { .. } => {
                lemma_lookup(f, 0);
                lemma_lookup(f, 1);
                lemma_lookup(f, 2);
            },
            TaskEventView::RunFailed { .. } => {
                lemma_lookup(f, 0);
                lemma_lookup(f, 1);
                lemma_lookup(f, 2);
                lemma_lookup(f, 3);
            },
        }
    }
}

/// An attempt ends as the agent's run did: completed, aborted or failed.
pub proof fn law_attempts_end_as_their_runs(status: RunStatus, r: TaskRunStatus)
    requires
        call_ensures(attempt_status, (status,), r),
    ensures
        status is Completed <==> r is Completed,
        status is Aborted <==> r is Aborted,
        status is Failed <==> r is Failed,
{
}

/// A finished task comes to the run that its ledger holds; where the ledger holds none, to a
/// failed run, under its own ids, with no attempts.
pub proof fn law_finished_tasks_come_to_their_ledger(
    events: &[TaskEvent],
    task_run_id: &str,
    task: &TaskDefinition,
    r: TaskRun,
)
    requires
        folded(task_event_views(events@)).attempts <= u32::MAX,
        call_ensures(finish_task, (events, task_run_id, task), r),
    ensures
        folded(task_event_views(events@)).run matches Some(run) ==> r@ == run,
        folded(task_event_views(events@)).run is None ==> {
            &&& r@.status is Failed
            &&& r@.task_run_id == task_run_id@
            &&& r@.task_id == task@.task_id
            &&& r@.instruction == task@.instruction
            &&& r@.started_at is None
            &&& r@.finished_at is None
            &&& r@.attempt_count == 0
        },
        events@.len() == 0 ==> r@.status is Failed,
{
}

} // verus!
