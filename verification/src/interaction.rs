//! Interaction contracts and the permission gate.
//!
//! When a tool call's policy is Prompt, the runtime builds a
//! [`PermissionRequest`] and asks a [`PermissionPrompter`]; the answer resolves
//! to Allow or Deny. The permission gate is the single execution-boundary check
//! the tool loop calls before dispatching a tool, and returns a [`PermissionResolution`]
//! carrying both the verdict and the request, so the caller can persist a
//! canonical outcome.

use crate::json::Field;
use crate::json::Json;
use crate::json::JsonView;
use crate::json::ObjectBuilder;
use crate::json::present;
use crate::json::sound;
use crate::permission::PermissionMode;
use crate::permission::PolicyDecision;
use crate::permission::ToolCategory;
use crate::permission::bash_category;
use crate::permission::classify_tool_use;
use crate::permission::policy;
use crate::permission::policy_decision;
use crate::permission::tool_use_category;
use crate::schema::bool_at;
use crate::schema::i64_at;
use crate::schema::keys_ascend;
use crate::schema::lemma_lookup;
use crate::schema::lemma_sound_object;
use crate::schema::lemma_step_ascends;
use crate::schema::member_at;
use crate::schema::read_bool;
use crate::schema::read_i64;
use crate::store::StoreResult;
use crate::text::concat3;
use crate::text::lt_at;
use crate::text::str_eq;
use crate::text::text_lt;
use crate::schema::key_views;
use crate::schema::listed_members;
use crate::schema::read_variant;
use crate::schema::struct_form;
use crate::schema::variant_name;
use crate::permission::law_tools_keep_to_their_permissions;
use vstd::prelude::*;

verus! {

/// Why the user is being asked; drives the prompt wording.
#[derive(Debug, Clone, Copy, PartialEq, Eq, Structural)]
pub enum PermissionReason {
    ShellDangerous,
    FileWrite,
    FsDestructive,
    GitDestructive,
    Privileged,
    Custom,
}

impl PermissionReason {
    /// The name of the variant on the wire.
    pub open spec fn wire(self) -> Seq<char> {
        match self {
            PermissionReason::ShellDangerous => "shell_dangerous"@,
            PermissionReason::FileWrite => "file_write"@,
            PermissionReason::FsDestructive => "fs_destructive"@,
            PermissionReason::GitDestructive => "git_destructive"@,
            PermissionReason::Privileged => "privileged"@,
            PermissionReason::Custom => "custom"@,
        }
    }

    /// The names on the wire: each variant is written, and read back, as its own.
    pub proof fn law_wire_names()
        ensures
            PermissionReason::ShellDangerous.wire() == "shell_dangerous"@,
            PermissionReason::of_wire("shell_dangerous"@) == Some(PermissionReason::ShellDangerous),
            PermissionReason::FileWrite.wire() == "file_write"@,
            PermissionReason::of_wire("file_write"@) == Some(PermissionReason::FileWrite),
            PermissionReason::FsDestructive.wire() == "fs_destructive"@,
            PermissionReason::of_wire("fs_destructive"@) == Some(PermissionReason::FsDestructive),
            PermissionReason::GitDestructive.wire() == "git_destructive"@,
            PermissionReason::of_wire("git_destructive"@) == Some(PermissionReason::GitDestructive),
            PermissionReason::Privileged.wire() == "privileged"@,
            PermissionReason::of_wire("privileged"@) == Some(PermissionReason::Privileged),
            PermissionReason::Custom.wire() == "custom"@,
            PermissionReason::of_wire("custom"@) == Some(PermissionReason::Custom),
    {
        PermissionReason::ShellDangerous.lemma_wire();
        PermissionReason::FileWrite.lemma_wire();
        PermissionReason::FsDestructive.lemma_wire();
        PermissionReason::GitDestructive.lemma_wire();
        PermissionReason::Privileged.lemma_wire();
        PermissionReason::Custom.lemma_wire();
    }

    pub open spec fn json(self) -> JsonView {
        JsonView::Text(self.wire())
    }

    /// The variant that `s` names on the wire.
    pub open spec fn of_wire(s: Seq<char>) -> Option<PermissionReason> {
        if s == "shell_dangerous"@ {
            Some(PermissionReason::ShellDangerous)
        } else if s == "file_write"@ {
            Some(PermissionReason::FileWrite)
        } else if s == "fs_destructive"@ {
            Some(PermissionReason::FsDestructive)
        } else if s == "git_destructive"@ {
            Some(PermissionReason::GitDestructive)
        } else if s == "privileged"@ {
            Some(PermissionReason::Privileged)
        } else if s == "custom"@ {
            Some(PermissionReason::Custom)
        } else {
            None
        }
    }

    pub open spec fn of_json(v: JsonView) -> Option<PermissionReason> {
        match variant_name(v) {
            Some(s) => PermissionReason::of_wire(s),
            None => None,
        }
    }

    /// The name of the variant on the wire.
    pub fn as_str(self) -> (r: &'static str)
        ensures
            r@ == self.wire(),
    {
        match self {
            PermissionReason::ShellDangerous => "shell_dangerous",
            PermissionReason::FileWrite => "file_write",
            PermissionReason::FsDestructive => "fs_destructive",
            PermissionReason::GitDestructive => "git_destructive",
            PermissionReason::Privileged => "privileged",
            PermissionReason::Custom => "custom",
        }
    }

    pub fn to_json(self) -> (r: Json)
        ensures
            r@ == self.json(),
    {
        Json::Text(self.as_str().to_owned())
    }

    /// The variant that `s` names on the wire.
    pub fn parse(s: &str) -> (r: Option<PermissionReason>)
        ensures
            r == PermissionReason::of_wire(s@),
    {
        if str_eq(s, "shell_dangerous") {
            Some(PermissionReason::ShellDangerous)
        } else if str_eq(s, "file_write") {
            Some(PermissionReason::FileWrite)
        } else if str_eq(s, "fs_destructive") {
            Some(PermissionReason::FsDestructive)
        } else if str_eq(s, "git_destructive") {
            Some(PermissionReason::GitDestructive)
        } else if str_eq(s, "privileged") {
            Some(PermissionReason::Privileged)
        } else if str_eq(s, "custom") {
            Some(PermissionReason::Custom)
        } else {
            None
        }
    }

    pub fn from_json(v: &Json) -> (r: Option<PermissionReason>)
        ensures
            r == PermissionReason::of_json(v@),
    {
        match read_variant(v) {
            Some(s) => PermissionReason::parse(s.as_str()),
            None => None,
        }
    }

    /// Every variant is read back from its wire name.
    pub proof fn lemma_wire(self)
        ensures
            PermissionReason::of_wire(self.wire()) == Some(self),
            PermissionReason::of_json(self.json()) == Some(self),
    {
        reveal_strlit("shell_dangerous");
        reveal_strlit("file_write");
        reveal_strlit("fs_destructive");
        reveal_strlit("git_destructive");
        reveal_strlit("privileged");
        reveal_strlit("custom");
        assert("shell_dangerous"@.len() == 15);
        assert("file_write"@.len() == 10);
        assert("fs_destructive"@.len() == 14);
        assert("git_destructive"@.len() == 15);
        assert("privileged"@.len() == 10);
        assert("custom"@.len() == 6);
        assert("shell_dangerous"@[0] != "git_destructive"@[0]);
        assert("file_write"@[0] != "privileged"@[0]);
    }
}

/// The reason that a category of tool call is asked about for.
pub open spec fn reason_for(category: ToolCategory) -> PermissionReason {
    match category {
        ToolCategory::ShellUnsafe => PermissionReason::ShellDangerous,
        ToolCategory::FileWrite => PermissionReason::FileWrite,
        ToolCategory::FsDestructive => PermissionReason::FsDestructive,
        ToolCategory::GitDestructive => PermissionReason::GitDestructive,
        ToolCategory::Privileged => PermissionReason::Privileged,
        ToolCategory::Read | ToolCategory::WebRead | ToolCategory::CustomTool => PermissionReason::Custom,
    }
}

impl PermissionReason {
    pub fn for_category(category: ToolCategory) -> (r: Self)
        ensures
            r == reason_for(category),
    {
        match category {
            ToolCategory::ShellUnsafe => PermissionReason::ShellDangerous,
            ToolCategory::FileWrite => PermissionReason::FileWrite,
            ToolCategory::FsDestructive => PermissionReason::FsDestructive,
            ToolCategory::GitDestructive => PermissionReason::GitDestructive,
            ToolCategory::Privileged => PermissionReason::Privileged,
            _ => PermissionReason::Custom,
        }
    }
}

/// One permission request carried by the runtime to the host.
#[derive(Debug, PartialEq)]
pub struct PermissionRequest {
    pub tool_call_id: String,
    pub tool_name: String,
    pub category: ToolCategory,
    pub reason: PermissionReason,
    /// A short human-facing summary of what the tool will do.
    pub summary: String,
    /// Whether an answer may be remembered for the rest of this turn.
    pub remember_for_turn_allowed: bool,
}

/// What a [`PermissionRequest`] says.
pub struct PermissionRequestView {
    pub tool_call_id: Seq<char>,
    pub tool_name: Seq<char>,
    pub category: ToolCategory,
    pub reason: PermissionReason,
    pub summary: Seq<char>,
    pub remember_for_turn_allowed: bool,
}

impl View for PermissionRequest {
    type V = PermissionRequestView;

    open spec fn view(&self) -> PermissionRequestView {
        PermissionRequestView {
            tool_call_id: self.tool_call_id@,
            tool_name: self.tool_name@,
            category: self.category,
            reason: self.reason,
            summary: self.summary@,
            remember_for_turn_allowed: self.remember_for_turn_allowed,
        }
    }
}

impl Clone for PermissionRequest {
    fn clone(&self) -> (r: Self)
        ensures
            r@ == self@,
    {
        PermissionRequest {
            tool_call_id: self.tool_call_id.clone(),
            tool_name: self.tool_name.clone(),
            category: self.category,
            reason: self.reason,
            summary: self.summary.clone(),
            remember_for_turn_allowed: self.remember_for_turn_allowed,
        }
    }
}

impl PermissionRequestView {
    /// The members of the JSON object, in key order.
    pub open spec fn fields(self) -> Seq<Field> {
        Seq::empty()
            .push(("category"@, Some(self.category.json())))
            .push(("reason"@, Some(self.reason.json())))
            .push(("remember_for_turn_allowed"@, Some(JsonView::Bool(self.remember_for_turn_allowed))))
            .push(("summary"@, Some(JsonView::Text(self.summary))))
            .push(("tool_call_id"@, Some(JsonView::Text(self.tool_call_id))))
            .push(("tool_name"@, Some(JsonView::Text(self.tool_name))))
    }

    pub open spec fn json(self) -> JsonView {
        JsonView::Object(present(self.fields()))
    }

    /// The members in the order of declaration.
    pub open spec fn order() -> Seq<Seq<char>> {
        seq!["tool_call_id"@, "tool_name"@, "category"@, "reason"@, "summary"@, "remember_for_turn_allowed"@]
    }

    /// What the JSON value `v` says; `None` when it is neither such an object nor a list
    /// of its members.
    pub open spec fn of_json(v: JsonView) -> Option<PermissionRequestView> {
        PermissionRequestView::of_object(struct_form(v, PermissionRequestView::order(), 6))
    }

    /// What the JSON object `v` says; `None` when it is no such object.
    pub open spec fn of_object(v: JsonView) -> Option<PermissionRequestView> {
        let tool_call_id = v.text_at("tool_call_id"@);
        let tool_name = v.text_at("tool_name"@);
        let category = member_at(v, "category"@, |j: JsonView| ToolCategory::of_json(j));
        let reason = member_at(v, "reason"@, |j: JsonView| PermissionReason::of_json(j));
        let summary = v.text_at("summary"@);
        let remember_for_turn_allowed = bool_at(v, "remember_for_turn_allowed"@);
        if v is Object && tool_call_id is Some && tool_name is Some && category is Some && reason is Some && summary is Some && remember_for_turn_allowed is Some {
            Some(
                PermissionRequestView {
                    tool_call_id: tool_call_id->0,
                    tool_name: tool_name->0,
                    category: category->0,
                    reason: reason->0,
                    summary: summary->0,
                    remember_for_turn_allowed: remember_for_turn_allowed->0,
                },
            )
        } else {
            None
        }
    }

    proof fn lemma_keys(self)
        ensures
            keys_ascend(self.fields()),
    {
        assert(text_lt("category"@, "reason"@)) by {
            reveal_strlit("category");
            reveal_strlit("reason");
            assert(lt_at("category"@, "reason"@, 0));
        };
        assert(text_lt("reason"@, "remember_for_turn_allowed"@)) by {
            reveal_strlit("reason");
            reveal_strlit("remember_for_turn_allowed");
            assert(lt_at("reason"@, "remember_for_turn_allowed"@, 2));
        };
        assert(text_lt("remember_for_turn_allowed"@, "summary"@)) by {
            reveal_strlit("remember_for_turn_allowed");
            reveal_strlit("summary");
            assert(lt_at("remember_for_turn_allowed"@, "summary"@, 0));
        };
        assert(text_lt("summary"@, "tool_call_id"@)) by {
            reveal_strlit("summary");
            reveal_strlit("tool_call_id");
            assert(lt_at("summary"@, "tool_call_id"@, 0));
        };
        assert(text_lt("tool_call_id"@, "tool_name"@)) by {
            reveal_strlit("tool_call_id");
            reveal_strlit("tool_name");
            assert(lt_at("tool_call_id"@, "tool_name"@, 5));
        };
        lemma_step_ascends(self.fields());
    }

    /// Reading what was written gives the same value back.
    pub proof fn lemma_round_trip(self)
        ensures
            PermissionRequestView::of_json(self.json()) == Some(self),
            self.json().get("category"@) == (Some(self.category.json())),
            self.json().get("reason"@) == (Some(self.reason.json())),
            self.json().get("remember_for_turn_allowed"@) == (Some(JsonView::Bool(self.remember_for_turn_allowed))),
            self.json().get("summary"@) == (Some(JsonView::Text(self.summary))),
            self.json().get("tool_call_id"@) == (Some(JsonView::Text(self.tool_call_id))),
            self.json().get("tool_name"@) == (Some(JsonView::Text(self.tool_name))),
    {
        let f = self.fields();
        self.lemma_keys();
        assert(self.json().get("category"@) == Some(self.category.json())) by {
            lemma_lookup(f, 0);
        };
        assert(self.json().get("reason"@) == Some(self.reason.json())) by {
            lemma_lookup(f, 1);
        };
        assert(self.json().get("remember_for_turn_allowed"@) == Some(JsonView::Bool(self.remember_for_turn_allowed))) by {
            lemma_lookup(f, 2);
        };
        assert(self.json().get("summary"@) == Some(JsonView::Text(self.summary))) by {
            lemma_lookup(f, 3);
        };
        assert(self.json().get("tool_call_id"@) == Some(JsonView::Text(self.tool_call_id))) by {
            lemma_lookup(f, 4);
        };
        assert(self.json().get("tool_name"@) == Some(JsonView::Text(self.tool_name))) by {
            lemma_lookup(f, 5);
        };
        self.category.lemma_wire();
        self.reason.lemma_wire();
    }

    /// The JSON object reads back from its text.
    pub proof fn lemma_sound(self, n: int)
        requires
            n >= 1,
        ensures
            sound(self.json(), n),
    {
        self.lemma_keys();
        lemma_sound_object(self.fields(), n);
    }
}

impl PermissionRequest {
    /// The JSON object for this value.
    pub fn to_json(&self) -> (r: Json)
        ensures
            r@ == self@.json(),
    {
        let mut b = ObjectBuilder::new();
        b.put("category", self.category.to_json());
        b.put("reason", self.reason.to_json());
        b.put("remember_for_turn_allowed", Json::Bool(self.remember_for_turn_allowed));
        b.put_text("summary", self.summary.as_str());
        b.put_text("tool_call_id", self.tool_call_id.as_str());
        b.put_text("tool_name", self.tool_name.as_str());
        assert(b.fields() == self@.fields());
        b.build()
    }

    /// Reads the value back from its JSON object, or from a list of its members in the
    /// order of declaration; unknown members are ignored.
    pub fn from_json(v: &Json) -> (r: Option<PermissionRequest>)
        ensures
            match r {
                Some(x) => PermissionRequestView::of_json(v@) == Some(x@),
                None => PermissionRequestView::of_json(v@) is None,
            },
    {
        let names: [&str; 6] = ["tool_call_id", "tool_name", "category", "reason", "summary", "remember_for_turn_allowed"];
        assert(key_views(names@) =~= PermissionRequestView::order());
        match listed_members(v, &names, 6) {
            Some(o) => PermissionRequest::from_object(&o),
            None => PermissionRequest::from_object(v),
        }
    }

    fn from_object(v: &Json) -> (r: Option<PermissionRequest>)
        ensures
            match r {
                Some(x) => PermissionRequestView::of_object(v@) == Some(x@),
                None => PermissionRequestView::of_object(v@) is None,
            },
    {
        match v {
            Json::Object(_) => {},
            _ => return None,
        }
        let tool_call_id = match v.text_at("tool_call_id") {
            Some(x) => x,
            None => return None,
        };
        let tool_name = match v.text_at("tool_name") {
            Some(x) => x,
            None => return None,
        };
        let category = match v.get("category") {
            Some(j) => match ToolCategory::from_json(j) {
                Some(x) => x,
                None => return None,
            },
            None => return None,
        };
        let reason = match v.get("reason") {
            Some(j) => match PermissionReason::from_json(j) {
                Some(x) => x,
                None => return None,
            },
            None => return None,
        };
        let summary = match v.text_at("summary") {
            Some(x) => x,
            None => return None,
        };
        let remember_for_turn_allowed = match read_bool(v, "remember_for_turn_allowed") {
            Some(x) => x,
            None => return None,
        };
        Some(PermissionRequest { tool_call_id, tool_name, category, reason, summary, remember_for_turn_allowed })
    }
}

/// The host's decision on a permission request.
#[derive(Debug, Clone, Copy, PartialEq, Eq, Structural)]
pub enum PermissionDecision {
    Allow,
    Deny,
}

impl PermissionDecision {
    /// The name of the variant on the wire.
    pub open spec fn wire(self) -> Seq<char> {
        match self {
            PermissionDecision::Allow => "allow"@,
            PermissionDecision::Deny => "deny"@,
        }
    }

    /// The names on the wire: each variant is written, and read back, as its own.
    pub proof fn law_wire_names()
        ensures
            PermissionDecision::Allow.wire() == "allow"@,
            PermissionDecision::of_wire("allow"@) == Some(PermissionDecision::Allow),
            PermissionDecision::Deny.wire() == "deny"@,
            PermissionDecision::of_wire("deny"@) == Some(PermissionDecision::Deny),
    {
        PermissionDecision::Allow.lemma_wire();
        PermissionDecision::Deny.lemma_wire();
    }

    pub open spec fn json(self) -> JsonView {
        JsonView::Text(self.wire())
    }

    /// The variant that `s` names on the wire.
    pub open spec fn of_wire(s: Seq<char>) -> Option<PermissionDecision> {
        if s == "allow"@ {
            Some(PermissionDecision::Allow)
        } else if s == "deny"@ {
            Some(PermissionDecision::Deny)
        } else {
            None
        }
    }

    pub open spec fn of_json(v: JsonView) -> Option<PermissionDecision> {
        match variant_name(v) {
            Some(s) => PermissionDecision::of_wire(s),
            None => None,
        }
    }

    /// The name of the variant on the wire.
    pub fn as_str(self) -> (r: &'static str)
        ensures
            r@ == self.wire(),
    {
        match self {
            PermissionDecision::Allow => "allow",
            PermissionDecision::Deny => "deny",
        }
    }

    pub fn to_json(self) -> (r: Json)
        ensures
            r@ == self.json(),
    {
        Json::Text(self.as_str().to_owned())
    }

    /// The variant that `s` names on the wire.
    pub fn parse(s: &str) -> (r: Option<PermissionDecision>)
        ensures
            r == PermissionDecision::of_wire(s@),
    {
        if str_eq(s, "allow") {
            Some(PermissionDecision::Allow)
        } else if str_eq(s, "deny") {
            Some(PermissionDecision::Deny)
        } else {
            None
        }
    }

    pub fn from_json(v: &Json) -> (r: Option<PermissionDecision>)
        ensures
            r == PermissionDecision::of_json(v@),
    {
        match read_variant(v) {
            Some(s) => PermissionDecision::parse(s.as_str()),
            None => None,
        }
    }

    /// Every variant is read back from its wire name.
    pub proof fn lemma_wire(self)
        ensures
            PermissionDecision::of_wire(self.wire()) == Some(self),
            PermissionDecision::of_json(self.json()) == Some(self),
    {
        reveal_strlit("allow");
        reveal_strlit("deny");
        assert("allow"@.len() == 5);
        assert("deny"@.len() == 4);
    }
}

/// The host's answer to a permission request.
#[derive(Debug, Clone, Copy, PartialEq, Eq, Structural)]
pub struct PermissionAnswer {
    pub decision: PermissionDecision,
    /// Only meaningful when the decision is Allow and the request allowed it.
    pub remember_for_turn: bool,
}

impl PermissionRequestView {
    /// The JSON object in the order of declaration, as it is persisted.
    pub open spec fn declared_json(self) -> JsonView {
        JsonView::Object(
            present(
                Seq::empty()
                    .push(("tool_call_id"@, Some(JsonView::Text(self.tool_call_id))))
                    .push(("tool_name"@, Some(JsonView::Text(self.tool_name))))
                    .push(("category"@, Some(self.category.json())))
                    .push(("reason"@, Some(self.reason.json())))
                    .push(("summary"@, Some(JsonView::Text(self.summary))))
                    .push(
                        (
                            "remember_for_turn_allowed"@,
                            Some(JsonView::Bool(self.remember_for_turn_allowed)),
                        ),
                    ),
            ),
        )
    }
}

impl PermissionRequest {
    /// The JSON object in the order of declaration, as it is persisted.
    pub fn to_declared_json(&self) -> (r: Json)
        ensures
            r@ == self@.declared_json(),
    {
        let mut b = ObjectBuilder::new();
        b.put_text("tool_call_id", self.tool_call_id.as_str());
        b.put_text("tool_name", self.tool_name.as_str());
        b.put("category", self.category.to_json());
        b.put("reason", self.reason.to_json());
        b.put_text("summary", self.summary.as_str());
        b.put("remember_for_turn_allowed", Json::Bool(self.remember_for_turn_allowed));
        b.build()
    }
}

impl PermissionAnswer {
    /// The JSON object in the order of declaration, as it is persisted.
    pub open spec fn declared_json(self) -> JsonView {
        JsonView::Object(
            present(
                Seq::empty()
                    .push(("decision"@, Some(self.decision.json())))
                    .push(("remember_for_turn"@, Some(JsonView::Bool(self.remember_for_turn)))),
            ),
        )
    }

    /// The JSON object in the order of declaration, as it is persisted.
    pub fn to_declared_json(&self) -> (r: Json)
        ensures
            r@ == self.declared_json(),
    {
        let mut b = ObjectBuilder::new();
        b.put("decision", self.decision.to_json());
        b.put("remember_for_turn", Json::Bool(self.remember_for_turn));
        b.build()
    }
}

/// Canonical outcome persisted for audit and replay.
#[derive(Debug, PartialEq)]
pub struct PermissionOutcome {
    pub tool_call_id: String,
    pub decision: PermissionDecision,
    pub remember_for_turn: bool,
    pub committed_at: i64,
}

/// What a [`PermissionOutcome`] says.
pub struct PermissionOutcomeView {
    pub tool_call_id: Seq<char>,
    pub decision: PermissionDecision,
    pub remember_for_turn: bool,
    pub committed_at: i64,
}

impl View for PermissionOutcome {
    type V = PermissionOutcomeView;

    open spec fn view(&self) -> PermissionOutcomeView {
        PermissionOutcomeView {
            tool_call_id: self.tool_call_id@,
            decision: self.decision,
            remember_for_turn: self.remember_for_turn,
            committed_at: self.committed_at,
        }
    }
}

impl Clone for PermissionOutcome {
    fn clone(&self) -> (r: Self)
        ensures
            r@ == self@,
    {
        PermissionOutcome {
            tool_call_id: self.tool_call_id.clone(),
            decision: self.decision,
            remember_for_turn: self.remember_for_turn,
            committed_at: self.committed_at,
        }
    }
}

impl PermissionOutcomeView {
    /// The members of the JSON object, in key order.
    pub open spec fn fields(self) -> Seq<Field> {
        Seq::empty()
            .push(("committed_at"@, Some(JsonView::Number(self.committed_at as int))))
            .push(("decision"@, Some(self.decision.json())))
            .push(("remember_for_turn"@, Some(JsonView::Bool(self.remember_for_turn))))
            .push(("tool_call_id"@, Some(JsonView::Text(self.tool_call_id))))
    }

    pub open spec fn json(self) -> JsonView {
        JsonView::Object(present(self.fields()))
    }

    /// The members in the order of declaration.
    pub open spec fn order() -> Seq<Seq<char>> {
        seq!["tool_call_id"@, "decision"@, "remember_for_turn"@, "committed_at"@]
    }

    /// What the JSON value `v` says; `None` when it is neither such an object nor a list
    /// of its members.
    pub open spec fn of_json(v: JsonView) -> Option<PermissionOutcomeView> {
        PermissionOutcomeView::of_object(struct_form(v, PermissionOutcomeView::order(), 4))
    }

    /// What the JSON object `v` says; `None` when it is no such object.
    pub open spec fn of_object(v: JsonView) -> Option<PermissionOutcomeView> {
        let tool_call_id = v.text_at("tool_call_id"@);
        let decision = member_at(v, "decision"@, |j: JsonView| PermissionDecision::of_json(j));
        let remember_for_turn = bool_at(v, "remember_for_turn"@);
        let committed_at = i64_at(v, "committed_at"@);
        if v is Object && tool_call_id is Some && decision is Some && remember_for_turn is Some && committed_at is Some {
            Some(
                PermissionOutcomeView {
                    tool_call_id: tool_call_id->0,
                    decision: decision->0,
                    remember_for_turn: remember_for_turn->0,
                    committed_at: committed_at->0,
                },
            )
        } else {
            None
        }
    }

    proof fn lemma_keys(self)
        ensures
            keys_ascend(self.fields()),
    {
        assert(text_lt("committed_at"@, "decision"@)) by {
            reveal_strlit("committed_at");
            reveal_strlit("decision");
            assert(lt_at("committed_at"@, "decision"@, 0));
        };
        assert(text_lt("decision"@, "remember_for_turn"@)) by {
            reveal_strlit("decision");
            reveal_strlit("remember_for_turn");
            assert(lt_at("decision"@, "remember_for_turn"@, 0));
        };
        assert(text_lt("remember_for_turn"@, "tool_call_id"@)) by {
            reveal_strlit("remember_for_turn");
            reveal_strlit("tool_call_id");
            assert(lt_at("remember_for_turn"@, "tool_call_id"@, 0));
        };
        lemma_step_ascends(self.fields());
    }

    /// Reading what was written gives the same value back.
    pub proof fn lemma_round_trip(self)
        ensures
            PermissionOutcomeView::of_json(self.json()) == Some(self),
            self.json().get("committed_at"@) == (Some(JsonView::Number(self.committed_at as int))),
            self.json().get("decision"@) == (Some(self.decision.json())),
            self.json().get("remember_for_turn"@) == (Some(JsonView::Bool(self.remember_for_turn))),
            self.json().get("tool_call_id"@) == (Some(JsonView::Text(self.tool_call_id))),
    {
        let f = self.fields();
        self.lemma_keys();
        assert(self.json().get("committed_at"@) == Some(JsonView::Number(self.committed_at as int))) by {
            lemma_lookup(f, 0);
        };
        assert(self.json().get("decision"@) == Some(self.decision.json())) by {
            lemma_lookup(f, 1);
        };
        assert(self.json().get("remember_for_turn"@) == Some(JsonView::Bool(self.remember_for_turn))) by {
            lemma_lookup(f, 2);
        };
        assert(self.json().get("tool_call_id"@) == Some(JsonView::Text(self.tool_call_id))) by {
            lemma_lookup(f, 3);
        };
        self.decision.lemma_wire();
    }

    /// The JSON object reads back from its text.
    pub proof fn lemma_sound(self, n: int)
        requires
            n >= 1,
        ensures
            sound(self.json(), n),
    {
        self.lemma_keys();
        lemma_sound_object(self.fields(), n);
    }
}

impl PermissionOutcome {
    /// The JSON object for this value.
    pub fn to_json(&self) -> (r: Json)
        ensures
            r@ == self@.json(),
    {
        let mut b = ObjectBuilder::new();
        b.put("committed_at", Json::Int(self.committed_at));
        b.put("decision", self.decision.to_json());
        b.put("remember_for_turn", Json::Bool(self.remember_for_turn));
        b.put_text("tool_call_id", self.tool_call_id.as_str());
        assert(b.fields() == self@.fields());
        b.build()
    }

    /// Reads the value back from its JSON object, or from a list of its members in the
    /// order of declaration; unknown members are ignored.
    pub fn from_json(v: &Json) -> (r: Option<PermissionOutcome>)
        ensures
            match r {
                Some(x) => PermissionOutcomeView::of_json(v@) == Some(x@),
                None => PermissionOutcomeView::of_json(v@) is None,
            },
    {
        let names: [&str; 4] = ["tool_call_id", "decision", "remember_for_turn", "committed_at"];
        assert(key_views(names@) =~= PermissionOutcomeView::order());
        match listed_members(v, &names, 4) {
            Some(o) => PermissionOutcome::from_object(&o),
            None => PermissionOutcome::from_object(v),
        }
    }

    fn from_object(v: &Json) -> (r: Option<PermissionOutcome>)
        ensures
            match r {
                Some(x) => PermissionOutcomeView::of_object(v@) == Some(x@),
                None => PermissionOutcomeView::of_object(v@) is None,
            },
    {
        match v {
            Json::Object(_) => {},
            _ => return None,
        }
        let tool_call_id = match v.text_at("tool_call_id") {
            Some(x) => x,
            None => return None,
        };
        let decision = match v.get("decision") {
            Some(j) => match PermissionDecision::from_json(j) {
                Some(x) => x,
                None => return None,
            },
            None => return None,
        };
        let remember_for_turn = match read_bool(v, "remember_for_turn") {
            Some(x) => x,
            None => return None,
        };
        let committed_at = match read_i64(v, "committed_at") {
            Some(x) => x,
            None => return None,
        };
        Some(PermissionOutcome { tool_call_id, decision, remember_for_turn, committed_at })
    }
}

/// Verdict the tool loop acts on.
#[derive(Debug, Clone, Copy, PartialEq, Eq, Structural)]
pub enum PermissionVerdict {
    Allow,
    Deny,
}

/// What [`PermissionGate::check`] returns: the verdict plus the request that
/// produced it, so the caller can persist a canonical outcome.
#[derive(Debug)]
pub struct PermissionResolution {
    pub verdict: PermissionVerdict,
    pub request: PermissionRequest,
}

impl Clone for PermissionResolution {
    fn clone(&self) -> (r: Self)
        ensures
            r.verdict == self.verdict,
            r.request@ == self.request@,
    {
        PermissionResolution { verdict: self.verdict, request: self.request.clone() }
    }
}

/// The host side of a permission prompt: given a request, return an answer.
pub trait PermissionPrompter {
    fn ask(&self, request: &PermissionRequest) -> PermissionAnswer;
}

/// The execution-boundary check the tool loop calls before dispatching a tool.
pub trait PermissionGate {
    fn check(&self, tool_call_id: &str, tool_name: &str, args: &Json) -> PermissionResolution;
}

/// A short human-facing summary of what a call will do: its command, else its
/// tool and path, else its tool.
pub open spec fn call_summary(
    tool_name: Seq<char>,
    command: Option<Seq<char>>,
    path: Option<Seq<char>>,
) -> Seq<char> {
    match (command, path) {
        (Some(cmd), _) => cmd,
        (None, Some(path)) => tool_name + " "@ + path,
        (None, None) => tool_name,
    }
}

/// Build a short human-facing summary of what the tool will do.
pub fn summarize_call(tool_name: &str, args: &Json) -> (r: String)
    ensures
        r@ == call_summary(tool_name@, args@.text_at("command"@), args@.text_at("path"@)),
{
    if let Some(cmd) = args.text_at("command") {
        return cmd;
    }
    if let Some(path) = args.text_at("path") {
        return concat3(tool_name, " ", path.as_str());
    }
    tool_name.to_owned()
}

/// The category of a tool call with the given arguments.
pub open spec fn call_category(tool_name: Seq<char>, args: JsonView) -> ToolCategory {
    tool_use_category(tool_name, args.text_at("command"@), |cmd: Seq<char>| bash_category(cmd))
}

/// The request a tool call gives rise to, whatever the mode.
pub open spec fn request_for(
    tool_call_id: Seq<char>,
    tool_name: Seq<char>,
    args: JsonView,
) -> PermissionRequestView {
    PermissionRequestView {
        tool_call_id,
        tool_name,
        category: call_category(tool_name, args),
        reason: reason_for(call_category(tool_name, args)),
        summary: call_summary(tool_name, args.text_at("command"@), args.text_at("path"@)),
        remember_for_turn_allowed: true,
    }
}

/// What the permission gate decides, where `answer` is what the user says if asked.
pub open spec fn gate_verdict(
    mode: PermissionMode,
    category: ToolCategory,
    answer: PermissionDecision,
) -> PermissionVerdict {
    match policy(mode, category) {
        PolicyDecision::Allow => PermissionVerdict::Allow,
        PolicyDecision::Block => PermissionVerdict::Deny,
        PolicyDecision::Prompt => match answer {
            PermissionDecision::Allow => PermissionVerdict::Allow,
            PermissionDecision::Deny => PermissionVerdict::Deny,
        },
    }
}

/// The request a tool call gives rise to.
pub fn permission_request(tool_call_id: &str, tool_name: &str, args: &Json) -> (r:
    PermissionRequest)
    ensures
        r@ == request_for(tool_call_id@, tool_name@, args@),
{
    let category = classify_tool_use(tool_name, args);
    PermissionRequest {
        tool_call_id: tool_call_id.to_owned(),
        tool_name: tool_name.to_owned(),
        category,
        reason: PermissionReason::for_category(category),
        summary: summarize_call(tool_name, args),
        remember_for_turn_allowed: true,
    }
}

/// What the permission gate decides once the user, where asked, has answered.
pub fn resolve_request(
    mode: PermissionMode,
    category: ToolCategory,
    answer: PermissionDecision,
) -> (r: PermissionVerdict)
    ensures
        r == gate_verdict(mode, category, answer),
{
    match policy_decision(mode, category) {
        PolicyDecision::Allow => PermissionVerdict::Allow,
        PolicyDecision::Block => PermissionVerdict::Deny,
        PolicyDecision::Prompt => match answer {
            PermissionDecision::Allow => PermissionVerdict::Allow,
            PermissionDecision::Deny => PermissionVerdict::Deny,
        },
    }
}

/// Whether the permission gate asks the user about a call of this category.
pub fn must_ask(mode: PermissionMode, category: ToolCategory) -> (r: bool)
    ensures
        r == (policy(mode, category) is Prompt),
{
    matches!(policy_decision(mode, category), PolicyDecision::Prompt)
}

/// Default gate: classify the call, apply the mode ceiling, and ask the prompter
/// only when the policy is Prompt. Always constructs the request so the caller
/// can persist it regardless of the path taken.
pub struct DefaultPermissionGate<P> {
    mode: PermissionMode,
    prompter: P,
}

impl<P> DefaultPermissionGate<P> {
    pub closed spec fn mode(&self) -> PermissionMode {
        self.mode
    }

    pub closed spec fn prompter(&self) -> P {
        self.prompter
    }

    pub fn new(mode: PermissionMode, prompter: P) -> (r: Self)
        ensures
            r.mode() == mode,
            r.prompter() == prompter,
    {
        DefaultPermissionGate { mode, prompter }
    }
}

/// `verdict` is what the permission gate decides on some answer that the prompter gives to
/// `request`.
pub open spec fn answered_by<P: PermissionPrompter>(
    prompter: P,
    request: PermissionRequestView,
    mode: PermissionMode,
    verdict: PermissionVerdict,
) -> bool {
    exists|asked: PermissionRequest, answer: PermissionAnswer|
        asked@ == request && #[trigger] call_ensures(P::ask, (&prompter, &asked), answer) && verdict
            == gate_verdict(mode, request.category, answer.decision)
}

impl<P: PermissionPrompter> PermissionGate for DefaultPermissionGate<P> {
    fn check(&self, tool_call_id: &str, tool_name: &str, args: &Json) -> (r: PermissionResolution)
        ensures
            r.request@ == request_for(tool_call_id@, tool_name@, args@),
            policy(self.mode(), r.request.category) is Allow ==> r.verdict is Allow,
            policy(self.mode(), r.request.category) is Block ==> r.verdict is Deny,
            policy(self.mode(), r.request.category) is Prompt ==> answered_by(
                self.prompter(),
                r.request@,
                self.mode(),
                r.verdict,
            ),
    {
        let request = permission_request(tool_call_id, tool_name, args);
        let decision = if must_ask(self.mode, request.category) {
            self.prompter.ask(&request).decision
        } else {
            PermissionDecision::Deny
        };
        let verdict = resolve_request(self.mode, request.category, decision);
        PermissionResolution { verdict, request }
    }
}

/// Persists canonical permission requests and outcomes: a request row and an
/// outcome row that refers to it.
pub trait InteractionStore {
    /// Record one permission request and its outcome atomically. `request_id` is
    /// the primary key, and a re-write is idempotent. `created_at` is the
    /// caller's clock.
    fn record_permission(
        &mut self,
        session_id: &str,
        run_id: &str,
        turn_id: &str,
        request_id: &str,
        created_at: i64,
        request_json: &str,
        outcome_json: &str,
    ) -> StoreResult<()>;
}

/// Only the Bypass ceiling lets a shell command through without the user's say.
pub proof fn law_gate_asks_before_shell(mode: PermissionMode, cmd: Seq<char>)
    ensures
        !(mode is Bypass) ==> gate_verdict(
            mode,
            bash_category(cmd),
            PermissionDecision::Deny,
        ) is Deny,
        mode is Explore ==> gate_verdict(
            mode,
            bash_category(cmd),
            PermissionDecision::Allow,
        ) is Deny,
        mode is Bypass ==> gate_verdict(
            mode,
            bash_category(cmd),
            PermissionDecision::Deny,
        ) is Allow,
{
}

/// What the default gate decides on a call, by the name of its tool: reading is let
/// through; writing files is denied under Explore, let through under Execute, and under
/// Ask goes by what the prompter says; any other tool is denied under Explore and
/// elsewhere goes by what the prompter says; and Bypass lets everything through. The
/// request names the call.
pub proof fn law_gate_decides_by_tool<P: PermissionPrompter>(
    gate: &DefaultPermissionGate<P>,
    tool_call_id: &str,
    tool_name: &str,
    args: &Json,
    r: PermissionResolution,
)
    requires
        call_ensures(
            DefaultPermissionGate::<P>::check,
            (gate, tool_call_id, tool_name, args),
            r,
        ),
    ensures
        ({
            let mode = gate.mode();
            let reads = tool_name@ == "read_file"@ || tool_name@ == "Read"@ || tool_name@ == "grep"@ || tool_name@ == "Grep"@ || tool_name@ == "glob"@ || tool_name@ == "Glob"@ || tool_name@ == "list_dir"@ || tool_name@ == "web_fetch"@ || tool_name@ == "WebFetch"@ || tool_name@ == "web_search"@ || tool_name@ == "WebSearch"@;
            let writes = tool_name@ == "write_file"@ || tool_name@ == "Write"@ || tool_name@ == "edit"@ || tool_name@ == "Edit"@ || tool_name@ == "multi_edit"@ || tool_name@ == "MultiEdit"@;
            let asked = exists|asked: PermissionRequest, answer: PermissionAnswer|
                asked@ == r.request@ && #[trigger] call_ensures(
                    P::ask,
                    (&gate.prompter(), &asked),
                    answer,
                ) && (r.verdict is Allow <==> answer.decision is Allow);
            &&& mode is Bypass || reads ==> r.verdict is Allow
            &&& mode is Explore && !reads ==> r.verdict is Deny
            &&& mode is Execute && writes ==> r.verdict is Allow
            &&& mode is Ask && !reads ==> asked
            &&& mode is Execute && !reads && !writes ==> asked
            &&& r.request.tool_call_id@ == tool_call_id@
            &&& r.request.tool_name@ == tool_name@
            &&& r.request.remember_for_turn_allowed
        }),
{
    let mode = gate.mode();
    law_tools_keep_to_their_permissions(tool_name@, args@.text_at("command"@), mode);
    if policy(mode, r.request.category) is Prompt {
        let (asked, answer) = choose|asked: PermissionRequest, answer: PermissionAnswer|
            asked@ == r.request@ && #[trigger] call_ensures(
                P::ask,
                (&gate.prompter(), &asked),
                answer,
            ) && r.verdict == gate_verdict(mode, r.request@.category, answer.decision);
        assert(r.verdict is Allow <==> answer.decision is Allow);
    }
}

/// A prompt says why it is asked: the reason goes with the category of the call.
pub proof fn law_reasons_go_with_categories(category: ToolCategory, r: PermissionReason)
    requires
        call_ensures(PermissionReason::for_category, (category,), r),
    ensures
        category is ShellUnsafe <==> r is ShellDangerous,
        category is FileWrite <==> r is FileWrite,
        category is FsDestructive <==> r is FsDestructive,
        category is GitDestructive <==> r is GitDestructive,
        category is Privileged <==> r is Privileged,
{
}

/// What a prompt shows: the command of a call that has one, else its tool and path, else
/// its tool.
pub proof fn law_summaries_show_the_call(tool_name: &str, args: &Json, r: String)
    requires
        call_ensures(summarize_call, (tool_name, args), r),
    ensures
        match (args@.get("command"@), args@.get("path"@)) {
            (Some(JsonView::Text(cmd)), _) => r@ == cmd,
            (_, Some(JsonView::Text(path))) => r@ == tool_name@ + " "@ + path,
            _ => r@ == tool_name@,
        },
{
}

/// The answer of whoever is asked decides exactly where the mode has them asked: what is
/// allowed or blocked without asking stays so whatever the answer.
pub proof fn law_answers_decide_where_asked(
    mode: PermissionMode,
    category: ToolCategory,
    answer: PermissionDecision,
    other: PermissionDecision,
    asked: bool,
    r: PermissionVerdict,
    s: PermissionVerdict,
)
    requires
        call_ensures(must_ask, (mode, category), asked),
        call_ensures(resolve_request, (mode, category, answer), r),
        call_ensures(resolve_request, (mode, category, other), s),
    ensures
        asked ==> (r is Allow <==> answer is Allow),
        !asked ==> r == s,
        asked ==> mode is Ask || mode is Execute,
        mode is Bypass ==> r is Allow && !asked,
        mode is Explore ==> !asked && (r is Allow <==> category is Read || category is WebRead),
        category is Read || category is WebRead ==> r is Allow && !asked,
        mode is Execute && category is FileWrite ==> r is Allow && !asked,
        mode is Ask && !(category is Read) && !(category is WebRead) ==> asked,
        mode is Execute && !(category is Read) && !(category is WebRead) && !(category is FileWrite)
            ==> asked,
{
}

/// A request is about its call: it names the call and the tool, shows the command of a call
/// that has one, else the tool and its path, else the tool, and may be remembered. A shell
/// tool's request is judged by its command.
pub proof fn law_requests_are_about_their_call(
    tool_call_id: &str,
    tool_name: &str,
    args: &Json,
    r: PermissionRequest,
)
    requires
        call_ensures(permission_request, (tool_call_id, tool_name, args), r),
    ensures
        r@.tool_call_id == tool_call_id@,
        r@.tool_name == tool_name@,
        r@.remember_for_turn_allowed,
        match (args@.get("command"@), args@.get("path"@)) {
            (Some(JsonView::Text(cmd)), _) => r@.summary == cmd,
            (_, Some(JsonView::Text(path))) => r@.summary == tool_name@ + " "@ + path,
            _ => r@.summary == tool_name@,
        },
        r@.category == call_category(tool_name@, args@),
        r@.reason == reason_for(r@.category),
{
}

} // verus!
