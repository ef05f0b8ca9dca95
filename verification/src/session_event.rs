//! The backend-to-consumer event-stream vocabulary. Backends normalize
//! provider-native streams to this union; the runner maps these into canonical
//! runtime events.

use crate::json::Field;
use crate::json::Json;
use crate::json::JsonView;
use crate::json::ObjectBuilder;
use crate::json::opt;
use crate::json::present;
use crate::json::sound;
use crate::schema::bool_at;
use crate::schema::clone_opt_json;
use crate::schema::clone_opt_text;
use crate::schema::from_opt_text;
use crate::schema::from_opt_u32;
use crate::schema::i64_at;
use crate::schema::keys_ascend;
use crate::schema::lemma_lookup;
use crate::schema::lemma_sound_object;
use crate::schema::lemma_step_ascends;
use crate::schema::member_at;
use crate::schema::opt_text_at;
use crate::schema::opt_text_json;
use crate::schema::opt_u32_at;
use crate::schema::opt_u32_json;
use crate::schema::optional;
use crate::schema::read_bool;
use crate::schema::read_i64;
use crate::schema::read_opt_json;
use crate::schema::read_opt_text;
use crate::schema::read_opt_u32;
use crate::text::lt_at;
use crate::text::str_eq;
use crate::text::text_lt;
use crate::schema::key_views;
use crate::schema::leading_text;
use crate::schema::listed_members;
use crate::schema::read_leading_text;
use crate::schema::read_tagged_variant;
use crate::schema::read_variant;
use crate::schema::struct_form;
use crate::schema::tagged_variant_name;
use crate::schema::variant_name;
use vstd::prelude::*;

verus! {

/// Reason a turn terminated normally.
#[derive(Debug, Clone, Copy, PartialEq, Eq, Structural)]
pub enum StopReason {
    EndTurn,
    UserStop,
    Error,
    PlanHandoff,
    GraphYield,
    PermissionHandoff,
    StepLimit,
    MaxTokens,
    ContextBudgetExhausted,
}

impl StopReason {
    /// The name of the variant on the wire.
    pub open spec fn wire(self) -> Seq<char> {
        match self {
            StopReason::EndTurn => "end_turn"@,
            StopReason::UserStop => "user_stop"@,
            StopReason::Error => "error"@,
            StopReason::PlanHandoff => "plan_handoff"@,
            StopReason::GraphYield => "graph_yield"@,
            StopReason::PermissionHandoff => "permission_handoff"@,
            StopReason::StepLimit => "step_limit"@,
            StopReason::MaxTokens => "max_tokens"@,
            StopReason::ContextBudgetExhausted => "context_budget_exhausted"@,
        }
    }

    /// The names on the wire: each variant is written, and read back, as its own.
    pub proof fn law_wire_names()
        ensures
            StopReason::EndTurn.wire() == "end_turn"@,
            StopReason::of_wire("end_turn"@) == Some(StopReason::EndTurn),
            StopReason::UserStop.wire() == "user_stop"@,
            StopReason::of_wire("user_stop"@) == Some(StopReason::UserStop),
            StopReason::Error.wire() == "error"@,
            StopReason::of_wire("error"@) == Some(StopReason::Error),
            StopReason::PlanHandoff.wire() == "plan_handoff"@,
            StopReason::of_wire("plan_handoff"@) == Some(StopReason::PlanHandoff),
            StopReason::GraphYield.wire() == "graph_yield"@,
            StopReason::of_wire("graph_yield"@) == Some(StopReason::GraphYield),
            StopReason::PermissionHandoff.wire() == "permission_handoff"@,
            StopReason::of_wire("permission_handoff"@) == Some(StopReason::PermissionHandoff),
            StopReason::StepLimit.wire() == "step_limit"@,
            StopReason::of_wire("step_limit"@) == Some(StopReason::StepLimit),
            StopReason::MaxTokens.wire() == "max_tokens"@,
            StopReason::of_wire("max_tokens"@) == Some(StopReason::MaxTokens),
            StopReason::ContextBudgetExhausted.wire() == "context_budget_exhausted"@,
            StopReason::of_wire("context_budget_exhausted"@) == Some(StopReason::ContextBudgetExhausted),
    {
        StopReason::EndTurn.lemma_wire();
        StopReason::UserStop.lemma_wire();
        StopReason::Error.lemma_wire();
        StopReason::PlanHandoff.lemma_wire();
        StopReason::GraphYield.lemma_wire();
        StopReason::PermissionHandoff.lemma_wire();
        StopReason::StepLimit.lemma_wire();
        StopReason::MaxTokens.lemma_wire();
        StopReason::ContextBudgetExhausted.lemma_wire();
    }

    pub open spec fn json(self) -> JsonView {
        JsonView::Text(self.wire())
    }

    /// The variant that `s` names on the wire.
    pub open spec fn of_wire(s: Seq<char>) -> Option<StopReason> {
        if s == "end_turn"@ {
            Some(StopReason::EndTurn)
        } else if s == "user_stop"@ {
            Some(StopReason::UserStop)
        } else if s == "error"@ {
            Some(StopReason::Error)
        } else if s == "plan_handoff"@ {
            Some(StopReason::PlanHandoff)
        } else if s == "graph_yield"@ {
            Some(StopReason::GraphYield)
        } else if s == "permission_handoff"@ {
            Some(StopReason::PermissionHandoff)
        } else if s == "step_limit"@ {
            Some(StopReason::StepLimit)
        } else if s == "max_tokens"@ {
            Some(StopReason::MaxTokens)
        } else if s == "context_budget_exhausted"@ {
            Some(StopReason::ContextBudgetExhausted)
        } else {
            None
        }
    }

    pub open spec fn of_json(v: JsonView) -> Option<StopReason> {
        match variant_name(v) {
            Some(s) => StopReason::of_wire(s),
            None => None,
        }
    }

    /// As [`StopReason::of_json`], for a member of a tagged value.
    pub open spec fn of_tagged_json(v: JsonView) -> Option<StopReason> {
        match tagged_variant_name(v) {
            Some(s) => StopReason::of_wire(s),
            None => None,
        }
    }

    /// The name of the variant on the wire.
    pub fn as_str(self) -> (r: &'static str)
        ensures
            r@ == self.wire(),
    {
        match self {
            StopReason::EndTurn => "end_turn",
            StopReason::UserStop => "user_stop",
            StopReason::Error => "error",
            StopReason::PlanHandoff => "plan_handoff",
            StopReason::GraphYield => "graph_yield",
            StopReason::PermissionHandoff => "permission_handoff",
            StopReason::StepLimit => "step_limit",
            StopReason::MaxTokens => "max_tokens",
            StopReason::ContextBudgetExhausted => "context_budget_exhausted",
        }
    }

    pub fn to_json(self) -> (r: Json)
        ensures
            r@ == self.json(),
    {
        Json::Text(self.as_str().to_owned())
    }

    /// The variant that `s` names on the wire.
    pub fn parse(s: &str) -> (r: Option<StopReason>)
        ensures
            r == StopReason::of_wire(s@),
    {
        if str_eq(s, "end_turn") {
            Some(StopReason::EndTurn)
        } else if str_eq(s, "user_stop") {
            Some(StopReason::UserStop)
        } else if str_eq(s, "error") {
            Some(StopReason::Error)
        } else if str_eq(s, "plan_handoff") {
            Some(StopReason::PlanHandoff)
        } else if str_eq(s, "graph_yield") {
            Some(StopReason::GraphYield)
        } else if str_eq(s, "permission_handoff") {
            Some(StopReason::PermissionHandoff)
        } else if str_eq(s, "step_limit") {
            Some(StopReason::StepLimit)
        } else if str_eq(s, "max_tokens") {
            Some(StopReason::MaxTokens)
        } else if str_eq(s, "context_budget_exhausted") {
            Some(StopReason::ContextBudgetExhausted)
        } else {
            None
        }
    }

    pub fn from_json(v: &Json) -> (r: Option<StopReason>)
        ensures
            r == StopReason::of_json(v@),
    {
        match read_variant(v) {
            Some(s) => StopReason::parse(s.as_str()),
            None => None,
        }
    }

    /// As [`StopReason::from_json`], for a member of a tagged value.
    pub fn from_tagged_json(v: &Json) -> (r: Option<StopReason>)
        ensures
            r == StopReason::of_tagged_json(v@),
    {
        match read_tagged_variant(v) {
            Some(s) => StopReason::parse(s.as_str()),
            None => None,
        }
    }

    /// Every variant is read back from its wire name.
    pub proof fn lemma_wire(self)
        ensures
            StopReason::of_wire(self.wire()) == Some(self),
            StopReason::of_json(self.json()) == Some(self),
            StopReason::of_tagged_json(self.json()) == Some(self),
    {
        reveal_strlit("end_turn");
        reveal_strlit("user_stop");
        reveal_strlit("error");
        reveal_strlit("plan_handoff");
        reveal_strlit("graph_yield");
        reveal_strlit("permission_handoff");
        reveal_strlit("step_limit");
        reveal_strlit("max_tokens");
        reveal_strlit("context_budget_exhausted");
        assert("end_turn"@.len() == 8);
        assert("user_stop"@.len() == 9);
        assert("error"@.len() == 5);
        assert("plan_handoff"@.len() == 12);
        assert("graph_yield"@.len() == 11);
        assert("permission_handoff"@.len() == 18);
        assert("step_limit"@.len() == 10);
        assert("max_tokens"@.len() == 10);
        assert("context_budget_exhausted"@.len() == 24);
        assert("step_limit"@[0] != "max_tokens"@[0]);
    }
}

/// Reason an in-flight turn was aborted.
#[derive(Debug, Clone, Copy, PartialEq, Eq, Structural)]
pub enum AbortReason {
    UserStop,
    Redirect,
    Timeout,
    Crash,
}

impl AbortReason {
    /// The name of the variant on the wire.
    pub open spec fn wire(self) -> Seq<char> {
        match self {
            AbortReason::UserStop => "user_stop"@,
            AbortReason::Redirect => "redirect"@,
            AbortReason::Timeout => "timeout"@,
            AbortReason::Crash => "crash"@,
        }
    }

    /// The names on the wire: each variant is written, and read back, as its own.
    pub proof fn law_wire_names()
        ensures
            AbortReason::UserStop.wire() == "user_stop"@,
            AbortReason::of_wire("user_stop"@) == Some(AbortReason::UserStop),
            AbortReason::Redirect.wire() == "redirect"@,
            AbortReason::of_wire("redirect"@) == Some(AbortReason::Redirect),
            AbortReason::Timeout.wire() == "timeout"@,
            AbortReason::of_wire("timeout"@) == Some(AbortReason::Timeout),
            AbortReason::Crash.wire() == "crash"@,
            AbortReason::of_wire("crash"@) == Some(AbortReason::Crash),
    {
        AbortReason::UserStop.lemma_wire();
        AbortReason::Redirect.lemma_wire();
        AbortReason::Timeout.lemma_wire();
        AbortReason::Crash.lemma_wire();
    }

    pub open spec fn json(self) -> JsonView {
        JsonView::Text(self.wire())
    }

    /// The variant that `s` names on the wire.
    pub open spec fn of_wire(s: Seq<char>) -> Option<AbortReason> {
        if s == "user_stop"@ {
            Some(AbortReason::UserStop)
        } else if s == "redirect"@ {
            Some(AbortReason::Redirect)
        } else if s == "timeout"@ {
            Some(AbortReason::Timeout)
        } else if s == "crash"@ {
            Some(AbortReason::Crash)
        } else {
            None
        }
    }

    pub open spec fn of_json(v: JsonView) -> Option<AbortReason> {
        match variant_name(v) {
            Some(s) => AbortReason::of_wire(s),
            None => None,
        }
    }

    /// As [`AbortReason::of_json`], for a member of a tagged value.
    pub open spec fn of_tagged_json(v: JsonView) -> Option<AbortReason> {
        match tagged_variant_name(v) {
            Some(s) => AbortReason::of_wire(s),
            None => None,
        }
    }

    /// The name of the variant on the wire.
    pub fn as_str(self) -> (r: &'static str)
        ensures
            r@ == self.wire(),
    {
        match self {
            AbortReason::UserStop => "user_stop",
            AbortReason::Redirect => "redirect",
            AbortReason::Timeout => "timeout",
            AbortReason::Crash => "crash",
        }
    }

    pub fn to_json(self) -> (r: Json)
        ensures
            r@ == self.json(),
    {
        Json::Text(self.as_str().to_owned())
    }

    /// The variant that `s` names on the wire.
    pub fn parse(s: &str) -> (r: Option<AbortReason>)
        ensures
            r == AbortReason::of_wire(s@),
    {
        if str_eq(s, "user_stop") {
            Some(AbortReason::UserStop)
        } else if str_eq(s, "redirect") {
            Some(AbortReason::Redirect)
        } else if str_eq(s, "timeout") {
            Some(AbortReason::Timeout)
        } else if str_eq(s, "crash") {
            Some(AbortReason::Crash)
        } else {
            None
        }
    }

    pub fn from_json(v: &Json) -> (r: Option<AbortReason>)
        ensures
            r == AbortReason::of_json(v@),
    {
        match read_variant(v) {
            Some(s) => AbortReason::parse(s.as_str()),
            None => None,
        }
    }

    /// As [`AbortReason::from_json`], for a member of a tagged value.
    pub fn from_tagged_json(v: &Json) -> (r: Option<AbortReason>)
        ensures
            r == AbortReason::of_tagged_json(v@),
    {
        match read_tagged_variant(v) {
            Some(s) => AbortReason::parse(s.as_str()),
            None => None,
        }
    }

    /// Every variant is read back from its wire name.
    pub proof fn lemma_wire(self)
        ensures
            AbortReason::of_wire(self.wire()) == Some(self),
            AbortReason::of_json(self.json()) == Some(self),
            AbortReason::of_tagged_json(self.json()) == Some(self),
    {
        reveal_strlit("user_stop");
        reveal_strlit("redirect");
        reveal_strlit("timeout");
        reveal_strlit("crash");
        assert("user_stop"@.len() == 9);
        assert("redirect"@.len() == 8);
        assert("timeout"@.len() == 7);
        assert("crash"@.len() == 5);
    }
}

/// Backend stream vocabulary, discriminated by `type`.
#[allow(inconsistent_fields)]
#[derive(Debug, PartialEq)]
pub enum SessionEvent {
    TextDelta {
        id: String,
        turn_id: String,
        ts: i64,
        message_id: String,
        start_offset: Option<u32>,
        text: String,
    },
    TextComplete {
        id: String,
        turn_id: String,
        ts: i64,
        message_id: String,
        text: String,
        provider_options: Option<Json>,
    },
    /// Model thinking delta.
    ThinkingDelta {
        id: String,
        turn_id: String,
        ts: i64,
        message_id: String,
        text: String,
    },
    /// Complete thinking block with signature.
    ThinkingComplete {
        id: String,
        turn_id: String,
        ts: i64,
        message_id: String,
        text: String,
        /// Signed thinking; re-sent on replay when present.
        signature: Option<String>,
    },
    /// Model requested a tool call.
    ToolCall {
        id: String,
        turn_id: String,
        ts: i64,
        /// Provider tool-call id.
        tool_call_id: String,
        tool_name: String,
        args: Json,
    },
    /// A tool's result, produced by the runner after execution.
    ToolResult {
        id: String,
        turn_id: String,
        ts: i64,
        tool_call_id: String,
        tool_name: String,
        content: String,
        is_error: bool,
    },
    Complete {
        id: String,
        turn_id: String,
        ts: i64,
        stop_reason: StopReason,
    },
    Error {
        id: String,
        turn_id: String,
        ts: i64,
        recoverable: bool,
        message: String,
        code: Option<String>,
        reason: Option<String>,
        details: Option<Json>,
    },
    Abort {
        id: String,
        turn_id: String,
        ts: i64,
        reason: AbortReason,
    },
}

/// What a [`SessionEvent`] says.
#[allow(inconsistent_fields)]
pub enum SessionEventView {
    TextDelta {
        id: Seq<char>,
        turn_id: Seq<char>,
        ts: i64,
        message_id: Seq<char>,
        start_offset: Option<u32>,
        text: Seq<char>,
    },
    TextComplete {
        id: Seq<char>,
        turn_id: Seq<char>,
        ts: i64,
        message_id: Seq<char>,
        text: Seq<char>,
        provider_options: Option<JsonView>,
    },
    ThinkingDelta {
        id: Seq<char>,
        turn_id: Seq<char>,
        ts: i64,
        message_id: Seq<char>,
        text: Seq<char>,
    },
    ThinkingComplete {
        id: Seq<char>,
        turn_id: Seq<char>,
        ts: i64,
        message_id: Seq<char>,
        text: Seq<char>,
        signature: Option<Seq<char>>,
    },
    ToolCall {
        id: Seq<char>,
        turn_id: Seq<char>,
        ts: i64,
        tool_call_id: Seq<char>,
        tool_name: Seq<char>,
        args: JsonView,
    },
    ToolResult {
        id: Seq<char>,
        turn_id: Seq<char>,
        ts: i64,
        tool_call_id: Seq<char>,
        tool_name: Seq<char>,
        content: Seq<char>,
        is_error: bool,
    },
    Complete {
        id: Seq<char>,
        turn_id: Seq<char>,
        ts: i64,
        stop_reason: StopReason,
    },
    Error {
        id: Seq<char>,
        turn_id: Seq<char>,
        ts: i64,
        recoverable: bool,
        message: Seq<char>,
        code: Option<Seq<char>>,
        reason: Option<Seq<char>>,
        details: Option<JsonView>,
    },
    Abort {
        id: Seq<char>,
        turn_id: Seq<char>,
        ts: i64,
        reason: AbortReason,
    },
}

impl View for SessionEvent {
    type V = SessionEventView;

    open spec fn view(&self) -> SessionEventView {
        match *self {
            SessionEvent::TextDelta { id, turn_id, ts, message_id, start_offset, text } => SessionEventView::TextDelta {
                id: id@,
                turn_id: turn_id@,
                ts: ts,
                message_id: message_id@,
                start_offset: start_offset,
                text: text@,
            },
            SessionEvent::TextComplete { id, turn_id, ts, message_id, text, provider_options } => SessionEventView::TextComplete {
                id: id@,
                turn_id: turn_id@,
                ts: ts,
                message_id: message_id@,
                text: text@,
                provider_options: opt(provider_options),
            },
            SessionEvent::ThinkingDelta { id, turn_id, ts, message_id, text } => SessionEventView::ThinkingDelta {
                id: id@,
                turn_id: turn_id@,
                ts: ts,
                message_id: message_id@,
                text: text@,
            },
            SessionEvent::ThinkingComplete { id, turn_id, ts, message_id, text, signature } => SessionEventView::ThinkingComplete {
                id: id@,
                turn_id: turn_id@,
                ts: ts,
                message_id: message_id@,
                text: text@,
                signature: opt(signature),
            },
            SessionEvent::ToolCall { id, turn_id, ts, tool_call_id, tool_name, args } => SessionEventView::ToolCall {
                id: id@,
                turn_id: turn_id@,
                ts: ts,
                tool_call_id: tool_call_id@,
                tool_name: tool_name@,
                args: args@,
            },
            SessionEvent::ToolResult { id, turn_id, ts, tool_call_id, tool_name, content, is_error } => SessionEventView::ToolResult {
                id: id@,
                turn_id: turn_id@,
                ts: ts,
                tool_call_id: tool_call_id@,
                tool_name: tool_name@,
                content: content@,
                is_error: is_error,
            },
            SessionEvent::Complete { id, turn_id, ts, stop_reason } => SessionEventView::Complete {
                id: id@,
                turn_id: turn_id@,
                ts: ts,
                stop_reason: stop_reason,
            },
            SessionEvent::Error { id, turn_id, ts, recoverable, message, code, reason, details } => SessionEventView::Error {
                id: id@,
                turn_id: turn_id@,
                ts: ts,
                recoverable: recoverable,
                message: message@,
                code: opt(code),
                reason: opt(reason),
                details: opt(details),
            },
            SessionEvent::Abort { id, turn_id, ts, reason } => SessionEventView::Abort {
                id: id@,
                turn_id: turn_id@,
                ts: ts,
                reason: reason,
            },
        }
    }
}

impl Clone for SessionEvent {
    fn clone(&self) -> (r: Self)
        ensures
            r@ == self@,
    {
        match self {
            SessionEvent::TextDelta { id, turn_id, ts, message_id, start_offset, text } => SessionEvent::TextDelta {
                id: id.clone(),
                turn_id: turn_id.clone(),
                ts: *ts,
                message_id: message_id.clone(),
                start_offset: *start_offset,
                text: text.clone(),
            },
            SessionEvent::TextComplete { id, turn_id, ts, message_id, text, provider_options } => SessionEvent::TextComplete {
                id: id.clone(),
                turn_id: turn_id.clone(),
                ts: *ts,
                message_id: message_id.clone(),
                text: text.clone(),
                provider_options: clone_opt_json(provider_options),
            },
            SessionEvent::ThinkingDelta { id, turn_id, ts, message_id, text } => SessionEvent::ThinkingDelta {
                id: id.clone(),
                turn_id: turn_id.clone(),
                ts: *ts,
                message_id: message_id.clone(),
                text: text.clone(),
            },
            SessionEvent::ThinkingComplete { id, turn_id, ts, message_id, text, signature } => SessionEvent::ThinkingComplete {
                id: id.clone(),
                turn_id: turn_id.clone(),
                ts: *ts,
                message_id: message_id.clone(),
                text: text.clone(),
                signature: clone_opt_text(signature),
            },
            SessionEvent::ToolCall { id, turn_id, ts, tool_call_id, tool_name, args } => SessionEvent::ToolCall {
                id: id.clone(),
                turn_id: turn_id.clone(),
                ts: *ts,
                tool_call_id: tool_call_id.clone(),
                tool_name: tool_name.clone(),
                args: args.clone(),
            },
            SessionEvent::ToolResult { id, turn_id, ts, tool_call_id, tool_name, content, is_error } => SessionEvent::ToolResult {
                id: id.clone(),
                turn_id: turn_id.clone(),
                ts: *ts,
                tool_call_id: tool_call_id.clone(),
                tool_name: tool_name.clone(),
                content: content.clone(),
                is_error: *is_error,
            },
            SessionEvent::Complete { id, turn_id, ts, stop_reason } => SessionEvent::Complete {
                id: id.clone(),
                turn_id: turn_id.clone(),
                ts: *ts,
                stop_reason: *stop_reason,
            },
            SessionEvent::Error { id, turn_id, ts, recoverable, message, code, reason, details } => SessionEvent::Error {
                id: id.clone(),
                turn_id: turn_id.clone(),
                ts: *ts,
                recoverable: *recoverable,
                message: message.clone(),
                code: clone_opt_text(code),
                reason: clone_opt_text(reason),
                details: clone_opt_json(details),
            },
            SessionEvent::Abort { id, turn_id, ts, reason } => SessionEvent::Abort {
                id: id.clone(),
                turn_id: turn_id.clone(),
                ts: *ts,
                reason: *reason,
            },
        }
    }
}

impl SessionEventView {
    /// The members of the JSON object, in key order.
    pub open spec fn fields(self) -> Seq<Field> {
        match self {
            SessionEventView::TextDelta { id, turn_id, ts, message_id, start_offset, text } => Seq::empty()
                .push(("id"@, Some(JsonView::Text(id))))
                .push(("messageId"@, Some(JsonView::Text(message_id))))
                .push(("startOffset"@, opt_u32_json(start_offset)))
                .push(("text"@, Some(JsonView::Text(text))))
                .push(("ts"@, Some(JsonView::Number(ts as int))))
                .push(("turnId"@, Some(JsonView::Text(turn_id))))
                .push(("type"@, Some(JsonView::Text("text_delta"@)))),
            SessionEventView::TextComplete { id, turn_id, ts, message_id, text, provider_options } => Seq::empty()
                .push(("id"@, Some(JsonView::Text(id))))
                .push(("messageId"@, Some(JsonView::Text(message_id))))
                .push(("providerOptions"@, provider_options))
                .push(("text"@, Some(JsonView::Text(text))))
                .push(("ts"@, Some(JsonView::Number(ts as int))))
                .push(("turnId"@, Some(JsonView::Text(turn_id))))
                .push(("type"@, Some(JsonView::Text("text_complete"@)))),
            SessionEventView::ThinkingDelta { id, turn_id, ts, message_id, text } => Seq::empty()
                .push(("id"@, Some(JsonView::Text(id))))
                .push(("messageId"@, Some(JsonView::Text(message_id))))
                .push(("text"@, Some(JsonView::Text(text))))
                .push(("ts"@, Some(JsonView::Number(ts as int))))
                .push(("turnId"@, Some(JsonView::Text(turn_id))))
                .push(("type"@, Some(JsonView::Text("thinking_delta"@)))),
            SessionEventView::ThinkingComplete { id, turn_id, ts, message_id, text, signature } => Seq::empty()
                .push(("id"@, Some(JsonView::Text(id))))
                .push(("messageId"@, Some(JsonView::Text(message_id))))
                .push(("signature"@, opt_text_json(signature)))
                .push(("text"@, Some(JsonView::Text(text))))
                .push(("ts"@, Some(JsonView::Number(ts as int))))
                .push(("turnId"@, Some(JsonView::Text(turn_id))))
                .push(("type"@, Some(JsonView::Text("thinking_complete"@)))),
            SessionEventView::ToolCall { id, turn_id, ts, tool_call_id, tool_name, args } => Seq::empty()
                .push(("args"@, Some(args)))
                .push(("id"@, Some(JsonView::Text(id))))
                .push(("toolCallId"@, Some(JsonView::Text(tool_call_id))))
                .push(("toolName"@, Some(JsonView::Text(tool_name))))
                .push(("ts"@, Some(JsonView::Number(ts as int))))
                .push(("turnId"@, Some(JsonView::Text(turn_id))))
                .push(("type"@, Some(JsonView::Text("tool_call"@)))),
            SessionEventView::ToolResult { id, turn_id, ts, tool_call_id, tool_name, content, is_error } => Seq::empty()
                .push(("content"@, Some(JsonView::Text(content))))
                .push(("id"@, Some(JsonView::Text(id))))
                .push(("isError"@, Some(JsonView::Bool(is_error))))
                .push(("toolCallId"@, Some(JsonView::Text(tool_call_id))))
                .push(("toolName"@, Some(JsonView::Text(tool_name))))
                .push(("ts"@, Some(JsonView::Number(ts as int))))
                .push(("turnId"@, Some(JsonView::Text(turn_id))))
                .push(("type"@, Some(JsonView::Text("tool_result"@)))),
            SessionEventView::Complete { id, turn_id, ts, stop_reason } => Seq::empty()
                .push(("id"@, Some(JsonView::Text(id))))
                .push(("stopReason"@, Some(stop_reason.json())))
                .push(("ts"@, Some(JsonView::Number(ts as int))))
                .push(("turnId"@, Some(JsonView::Text(turn_id))))
                .push(("type"@, Some(JsonView::Text("complete"@)))),
            SessionEventView::Error { id, turn_id, ts, recoverable, message, code, reason, details } => Seq::empty()
                .push(("code"@, opt_text_json(code)))
                .push(("details"@, details))
                .push(("id"@, Some(JsonView::Text(id))))
                .push(("message"@, Some(JsonView::Text(message))))
                .push(("reason"@, opt_text_json(reason)))
                .push(("recoverable"@, Some(JsonView::Bool(recoverable))))
                .push(("ts"@, Some(JsonView::Number(ts as int))))
                .push(("turnId"@, Some(JsonView::Text(turn_id))))
                .push(("type"@, Some(JsonView::Text("error"@)))),
            SessionEventView::Abort { id, turn_id, ts, reason } => Seq::empty()
                .push(("id"@, Some(JsonView::Text(id))))
                .push(("reason"@, Some(reason.json())))
                .push(("ts"@, Some(JsonView::Number(ts as int))))
                .push(("turnId"@, Some(JsonView::Text(turn_id))))
                .push(("type"@, Some(JsonView::Text("abort"@)))),
        }
    }

    pub open spec fn json(self) -> JsonView {
        JsonView::Object(present(self.fields()))
    }

    /// No optional member is the JSON value `null`, which reads back as absent.
    pub open spec fn lossless(self) -> bool {
        match self {
            SessionEventView::TextComplete { provider_options, .. } => provider_options != Some(JsonView::Null),
            SessionEventView::Error { details, .. } => details != Some(JsonView::Null),
            _ => true,
        }
    }

    /// The tags differ.
    proof fn lemma_tags()
        ensures
            SessionEventView::order("text_delta"@).0 == seq!["type"@, "id"@, "turnId"@, "ts"@, "messageId"@, "startOffset"@, "text"@],
            SessionEventView::order("text_delta"@).1 == 7,
            SessionEventView::order("text_complete"@).0 == seq!["type"@, "id"@, "turnId"@, "ts"@, "messageId"@, "text"@, "providerOptions"@],
            SessionEventView::order("text_complete"@).1 == 6,
            SessionEventView::order("thinking_delta"@).0 == seq!["type"@, "id"@, "turnId"@, "ts"@, "messageId"@, "text"@],
            SessionEventView::order("thinking_delta"@).1 == 6,
            SessionEventView::order("thinking_complete"@).0 == seq!["type"@, "id"@, "turnId"@, "ts"@, "messageId"@, "text"@, "signature"@],
            SessionEventView::order("thinking_complete"@).1 == 6,
            SessionEventView::order("tool_call"@).0 == seq!["type"@, "id"@, "turnId"@, "ts"@, "toolCallId"@, "toolName"@, "args"@],
            SessionEventView::order("tool_call"@).1 == 7,
            SessionEventView::order("tool_result"@).0 == seq!["type"@, "id"@, "turnId"@, "ts"@, "toolCallId"@, "toolName"@, "content"@, "isError"@],
            SessionEventView::order("tool_result"@).1 == 8,
            SessionEventView::order("complete"@).0 == seq!["type"@, "id"@, "turnId"@, "ts"@, "stopReason"@],
            SessionEventView::order("complete"@).1 == 5,
            SessionEventView::order("error"@).0 == seq!["type"@, "id"@, "turnId"@, "ts"@, "recoverable"@, "message"@, "code"@, "reason"@, "details"@],
            SessionEventView::order("error"@).1 == 6,
            SessionEventView::order("abort"@).0 == seq!["type"@, "id"@, "turnId"@, "ts"@, "reason"@],
            SessionEventView::order("abort"@).1 == 5,
    {
        reveal_strlit("text_delta");
        reveal_strlit("text_complete");
        reveal_strlit("thinking_delta");
        reveal_strlit("thinking_complete");
        reveal_strlit("tool_call");
        reveal_strlit("tool_result");
        reveal_strlit("complete");
        reveal_strlit("error");
        reveal_strlit("abort");
        assert("text_delta"@.len() == 10);
        assert("text_complete"@.len() == 13);
        assert("thinking_delta"@.len() == 14);
        assert("thinking_complete"@.len() == 17);
        assert("tool_call"@.len() == 9);
        assert("tool_result"@.len() == 11);
        assert("complete"@.len() == 8);
        assert("error"@.len() == 5);
        assert("abort"@.len() == 5);
        assert("error"@[0] != "abort"@[0]);
    }

    /// The members of the variant `tag` in the order of declaration, the tag first, and
    /// how many of them a list must give.
    pub open spec fn order(tag: Seq<char>) -> (Seq<Seq<char>>, int) {
        if tag == "text_delta"@ {
            (seq!["type"@, "id"@, "turnId"@, "ts"@, "messageId"@, "startOffset"@, "text"@], 7)
        } else if tag == "text_complete"@ {
            (seq!["type"@, "id"@, "turnId"@, "ts"@, "messageId"@, "text"@, "providerOptions"@], 6)
        } else if tag == "thinking_delta"@ {
            (seq!["type"@, "id"@, "turnId"@, "ts"@, "messageId"@, "text"@], 6)
        } else if tag == "thinking_complete"@ {
            (seq!["type"@, "id"@, "turnId"@, "ts"@, "messageId"@, "text"@, "signature"@], 6)
        } else if tag == "tool_call"@ {
            (seq!["type"@, "id"@, "turnId"@, "ts"@, "toolCallId"@, "toolName"@, "args"@], 7)
        } else if tag == "tool_result"@ {
            (seq!["type"@, "id"@, "turnId"@, "ts"@, "toolCallId"@, "toolName"@, "content"@, "isError"@], 8)
        } else if tag == "complete"@ {
            (seq!["type"@, "id"@, "turnId"@, "ts"@, "stopReason"@], 5)
        } else if tag == "error"@ {
            (seq!["type"@, "id"@, "turnId"@, "ts"@, "recoverable"@, "message"@, "code"@, "reason"@, "details"@], 6)
        } else if tag == "abort"@ {
            (seq!["type"@, "id"@, "turnId"@, "ts"@, "reason"@], 5)
        } else {
            (Seq::empty(), 1)
        }
    }

    /// What the JSON value `v` says; `None` when it is neither such an object nor a list
    /// of its members.
    pub open spec fn of_json(v: JsonView) -> Option<SessionEventView> {
        let order = SessionEventView::order(leading_text(v));
        SessionEventView::of_object(struct_form(v, order.0, order.1))
    }

    /// What the JSON object `v` says; `None` when it is no such object.
    pub open spec fn of_object(v: JsonView) -> Option<SessionEventView> {
        let tag = v.text_at("type"@);
        if tag == Some("text_delta"@) {
            let id = v.text_at("id"@);
            let turn_id = v.text_at("turnId"@);
            let ts = i64_at(v, "ts"@);
            let message_id = v.text_at("messageId"@);
            let start_offset = opt_u32_at(v, "startOffset"@);
            let text = v.text_at("text"@);
            if id is Some && turn_id is Some && ts is Some && message_id is Some && start_offset is Some && text is Some {
                Some(
                    SessionEventView::TextDelta {
                        id: id->0,
                        turn_id: turn_id->0,
                        ts: ts->0,
                        message_id: message_id->0,
                        start_offset: start_offset->0,
                        text: text->0,
                    },
                )
            } else {
                None
            }
        } else if tag == Some("text_complete"@) {
            let id = v.text_at("id"@);
            let turn_id = v.text_at("turnId"@);
            let ts = i64_at(v, "ts"@);
            let message_id = v.text_at("messageId"@);
            let text = v.text_at("text"@);
            let provider_options = Some(optional(v, "providerOptions"@));
            if id is Some && turn_id is Some && ts is Some && message_id is Some && text is Some {
                Some(
                    SessionEventView::TextComplete {
                        id: id->0,
                        turn_id: turn_id->0,
                        ts: ts->0,
                        message_id: message_id->0,
                        text: text->0,
                        provider_options: provider_options->0,
                    },
                )
            } else {
                None
            }
        } else if tag == Some("thinking_delta"@) {
            let id = v.text_at("id"@);
            let turn_id = v.text_at("turnId"@);
            let ts = i64_at(v, "ts"@);
            let message_id = v.text_at("messageId"@);
            let text = v.text_at("text"@);
            if id is Some && turn_id is Some && ts is Some && message_id is Some && text is Some {
                Some(
                    SessionEventView::ThinkingDelta {
                        id: id->0,
                        turn_id: turn_id->0,
                        ts: ts->0,
                        message_id: message_id->0,
                        text: text->0,
                    },
                )
            } else {
                None
            }
        } else if tag == Some("thinking_complete"@) {
            let id = v.text_at("id"@);
            let turn_id = v.text_at("turnId"@);
            let ts = i64_at(v, "ts"@);
            let message_id = v.text_at("messageId"@);
            let text = v.text_at("text"@);
            let signature = opt_text_at(v, "signature"@);
            if id is Some && turn_id is Some && ts is Some && message_id is Some && text is Some && signature is Some {
                Some(
                    SessionEventView::ThinkingComplete {
                        id: id->0,
                        turn_id: turn_id->0,
                        ts: ts->0,
                        message_id: message_id->0,
                        text: text->0,
                        signature: signature->0,
                    },
                )
            } else {
                None
            }
        } else if tag == Some("tool_call"@) {
            let id = v.text_at("id"@);
            let turn_id = v.text_at("turnId"@);
            let ts = i64_at(v, "ts"@);
            let tool_call_id = v.text_at("toolCallId"@);
            let tool_name = v.text_at("toolName"@);
            let args = v.get("args"@);
            if id is Some && turn_id is Some && ts is Some && tool_call_id is Some && tool_name is Some && args is Some {
                Some(
                    SessionEventView::ToolCall {
                        id: id->0,
                        turn_id: turn_id->0,
                        ts: ts->0,
                        tool_call_id: tool_call_id->0,
                        tool_name: tool_name->0,
                        args: args->0,
                    },
                )
            } else {
                None
            }
        } else if tag == Some("tool_result"@) {
            let id = v.text_at("id"@);
            let turn_id = v.text_at("turnId"@);
            let ts = i64_at(v, "ts"@);
            let tool_call_id = v.text_at("toolCallId"@);
            let tool_name = v.text_at("toolName"@);
            let content = v.text_at("content"@);
            let is_error = bool_at(v, "isError"@);
            if id is Some && turn_id is Some && ts is Some && tool_call_id is Some && tool_name is Some && content is Some && is_error is Some {
                Some(
                    SessionEventView::ToolResult {
                        id: id->0,
                        turn_id: turn_id->0,
                        ts: ts->0,
                        tool_call_id: tool_call_id->0,
                        tool_name: tool_name->0,
                        content: content->0,
                        is_error: is_error->0,
                    },
                )
            } else {
                None
            }
        } else if tag == Some("complete"@) {
            let id = v.text_at("id"@);
            let turn_id = v.text_at("turnId"@);
            let ts = i64_at(v, "ts"@);
            let stop_reason = member_at(v, "stopReason"@, |j: JsonView| StopReason::of_tagged_json(j));
            if id is Some && turn_id is Some && ts is Some && stop_reason is Some {
                Some(
                    SessionEventView::Complete {
                        id: id->0,
                        turn_id: turn_id->0,
                        ts: ts->0,
                        stop_reason: stop_reason->0,
                    },
                )
            } else {
                None
            }
        } else if tag == Some("error"@) {
            let id = v.text_at("id"@);
            let turn_id = v.text_at("turnId"@);
            let ts = i64_at(v, "ts"@);
            let recoverable = bool_at(v, "recoverable"@);
            let message = v.text_at("message"@);
            let code = opt_text_at(v, "code"@);
            let reason = opt_text_at(v, "reason"@);
            let details = Some(optional(v, "details"@));
            if id is Some && turn_id is Some && ts is Some && recoverable is Some && message is Some && code is Some && reason is Some {
                Some(
                    SessionEventView::Error {
                        id: id->0,
                        turn_id: turn_id->0,
                        ts: ts->0,
                        recoverable: recoverable->0,
                        message: message->0,
                        code: code->0,
                        reason: reason->0,
                        details: details->0,
                    },
                )
            } else {
                None
            }
        } else if tag == Some("abort"@) {
            let id = v.text_at("id"@);
            let turn_id = v.text_at("turnId"@);
            let ts = i64_at(v, "ts"@);
            let reason = member_at(v, "reason"@, |j: JsonView| AbortReason::of_tagged_json(j));
            if id is Some && turn_id is Some && ts is Some && reason is Some {
                Some(
                    SessionEventView::Abort {
                        id: id->0,
                        turn_id: turn_id->0,
                        ts: ts->0,
                        reason: reason->0,
                    },
                )
            } else {
                None
            }
        } else {
            None
        }
    }

    proof fn lemma_keys(self)
        ensures
            keys_ascend(self.fields()),
    {
        match self {
            SessionEventView::TextDelta { .. } => {
                assert(text_lt("id"@, "messageId"@)) by {
                    reveal_strlit("id");
                    reveal_strlit("messageId");
                    assert(lt_at("id"@, "messageId"@, 0));
                };
                assert(text_lt("messageId"@, "startOffset"@)) by {
                    reveal_strlit("messageId");
                    reveal_strlit("startOffset");
                    assert(lt_at("messageId"@, "startOffset"@, 0));
                };
                assert(text_lt("startOffset"@, "text"@)) by {
                    reveal_strlit("startOffset");
                    reveal_strlit("text");
                    assert(lt_at("startOffset"@, "text"@, 0));
                };
                assert(text_lt("text"@, "ts"@)) by {
                    reveal_strlit("text");
                    reveal_strlit("ts");
                    assert(lt_at("text"@, "ts"@, 1));
                };
                assert(text_lt("ts"@, "turnId"@)) by {
                    reveal_strlit("ts");
                    reveal_strlit("turnId");
                    assert(lt_at("ts"@, "turnId"@, 1));
                };
                assert(text_lt("turnId"@, "type"@)) by {
                    reveal_strlit("turnId");
                    reveal_strlit("type");
                    assert(lt_at("turnId"@, "type"@, 1));
                };
            },
            SessionEventView::TextComplete { .. } => {
                assert(text_lt("id"@, "messageId"@)) by {
                    reveal_strlit("id");
                    reveal_strlit("messageId");
                    assert(lt_at("id"@, "messageId"@, 0));
                };
                assert(text_lt("messageId"@, "providerOptions"@)) by {
                    reveal_strlit("messageId");
                    reveal_strlit("providerOptions");
                    assert(lt_at("messageId"@, "providerOptions"@, 0));
                };
                assert(text_lt("providerOptions"@, "text"@)) by {
                    reveal_strlit("providerOptions");
                    reveal_strlit("text");
                    assert(lt_at("providerOptions"@, "text"@, 0));
                };
                assert(text_lt("text"@, "ts"@)) by {
                    reveal_strlit("text");
                    reveal_strlit("ts");
                    assert(lt_at("text"@, "ts"@, 1));
                };
                assert(text_lt("ts"@, "turnId"@)) by {
                    reveal_strlit("ts");
                    reveal_strlit("turnId");
                    assert(lt_at("ts"@, "turnId"@, 1));
                };
                assert(text_lt("turnId"@, "type"@)) by {
                    reveal_strlit("turnId");
                    reveal_strlit("type");
                    assert(lt_at("turnId"@, "type"@, 1));
                };
            },
            SessionEventView::ThinkingDelta { .. } => {
                assert(text_lt("id"@, "messageId"@)) by {
                    reveal_strlit("id");
                    reveal_strlit("messageId");
                    assert(lt_at("id"@, "messageId"@, 0));
                };
                assert(text_lt("messageId"@, "text"@)) by {
                    reveal_strlit("messageId");
                    reveal_strlit("text");
                    assert(lt_at("messageId"@, "text"@, 0));
                };
                assert(text_lt("text"@, "ts"@)) by {
                    reveal_strlit("text");
                    reveal_strlit("ts");
                    assert(lt_at("text"@, "ts"@, 1));
                };
                assert(text_lt("ts"@, "turnId"@)) by {
                    reveal_strlit("ts");
                    reveal_strlit("turnId");
                    assert(lt_at("ts"@, "turnId"@, 1));
                };
                assert(text_lt("turnId"@, "type"@)) by {
                    reveal_strlit("turnId");
                    reveal_strlit("type");
                    assert(lt_at("turnId"@, "type"@, 1));
                };
            },
            SessionEventView::ThinkingComplete { .. } => {
                assert(text_lt("id"@, "messageId"@)) by {
                    reveal_strlit("id");
                    reveal_strlit("messageId");
                    assert(lt_at("id"@, "messageId"@, 0));
                };
                assert(text_lt("messageId"@, "signature"@)) by {
                    reveal_strlit("messageId");
                    reveal_strlit("signature");
                    assert(lt_at("messageId"@, "signature"@, 0));
                };
                assert(text_lt("signature"@, "text"@)) by {
                    reveal_strlit("signature");
                    reveal_strlit("text");
                    assert(lt_at("signature"@, "text"@, 0));
                };
                assert(text_lt("text"@, "ts"@)) by {
                    reveal_strlit("text");
                    reveal_strlit("ts");
                    assert(lt_at("text"@, "ts"@, 1));
                };
                assert(text_lt("ts"@, "turnId"@)) by {
                    reveal_strlit("ts");
                    reveal_strlit("turnId");
                    assert(lt_at("ts"@, "turnId"@, 1));
                };
                assert(text_lt("turnId"@, "type"@)) by {
                    reveal_strlit("turnId");
                    reveal_strlit("type");
                    assert(lt_at("turnId"@, "type"@, 1));
                };
            },
            SessionEventView::ToolCall { .. } => {
                assert(text_lt("args"@, "id"@)) by {
                    reveal_strlit("args");
                    reveal_strlit("id");
                    assert(lt_at("args"@, "id"@, 0));
                };
                assert(text_lt("id"@, "toolCallId"@)) by {
                    reveal_strlit("id");
                    reveal_strlit("toolCallId");
                    assert(lt_at("id"@, "toolCallId"@, 0));
                };
                assert(text_lt("toolCallId"@, "toolName"@)) by {
                    reveal_strlit("toolCallId");
                    reveal_strlit("toolName");
                    assert(lt_at("toolCallId"@, "toolName"@, 4));
                };
                assert(text_lt("toolName"@, "ts"@)) by {
                    reveal_strlit("toolName");
                    reveal_strlit("ts");
                    assert(lt_at("toolName"@, "ts"@, 1));
                };
                assert(text_lt("ts"@, "turnId"@)) by {
                    reveal_strlit("ts");
                    reveal_strlit("turnId");
                    assert(lt_at("ts"@, "turnId"@, 1));
                };
                assert(text_lt("turnId"@, "type"@)) by {
                    reveal_strlit("turnId");
                    reveal_strlit("type");
                    assert(lt_at("turnId"@, "type"@, 1));
                };
            },
            SessionEventView::ToolResult { .. } => {
                assert(text_lt("content"@, "id"@)) by {
                    reveal_strlit("content");
                    reveal_strlit("id");
                    assert(lt_at("content"@, "id"@, 0));
                };
                assert(text_lt("id"@, "isError"@)) by {
                    reveal_strlit("id");
                    reveal_strlit("isError");
                    assert(lt_at("id"@, "isError"@, 1));
                };
                assert(text_lt("isError"@, "toolCallId"@)) by {
                    reveal_strlit("isError");
                    reveal_strlit("toolCallId");
                    assert(lt_at("isError"@, "toolCallId"@, 0));
                };
                assert(text_lt("toolCallId"@, "toolName"@)) by {
                    reveal_strlit("toolCallId");
                    reveal_strlit("toolName");
                    assert(lt_at("toolCallId"@, "toolName"@, 4));
                };
                assert(text_lt("toolName"@, "ts"@)) by {
                    reveal_strlit("toolName");
                    reveal_strlit("ts");
                    assert(lt_at("toolName"@, "ts"@, 1));
                };
                assert(text_lt("ts"@, "turnId"@)) by {
                    reveal_strlit("ts");
                    reveal_strlit("turnId");
                    assert(lt_at("ts"@, "turnId"@, 1));
                };
                assert(text_lt("turnId"@, "type"@)) by {
                    reveal_strlit("turnId");
                    reveal_strlit("type");
                    assert(lt_at("turnId"@, "type"@, 1));
                };
            },
            SessionEventView::Complete { .. } => {
                assert(text_lt("id"@, "stopReason"@)) by {
                    reveal_strlit("id");
                    reveal_strlit("stopReason");
                    assert(lt_at("id"@, "stopReason"@, 0));
                };
                assert(text_lt("stopReason"@, "ts"@)) by {
                    reveal_strlit("stopReason");
                    reveal_strlit("ts");
                    assert(lt_at("stopReason"@, "ts"@, 0));
                };
                assert(text_lt("ts"@, "turnId"@)) by {
                    reveal_strlit("ts");
                    reveal_strlit("turnId");
                    assert(lt_at("ts"@, "turnId"@, 1));
                };
                assert(text_lt("turnId"@, "type"@)) by {
                    reveal_strlit("turnId");
                    reveal_strlit("type");
                    assert(lt_at("turnId"@, "type"@, 1));
                };
            },
            SessionEventView::Error { .. } => {
                assert(text_lt("code"@, "details"@)) by {
                    reveal_strlit("code");
                    reveal_strlit("details");
                    assert(lt_at("code"@, "details"@, 0));
                };
                assert(text_lt("details"@, "id"@)) by {
                    reveal_strlit("details");
                    reveal_strlit("id");
                    assert(lt_at("details"@, "id"@, 0));
                };
                assert(text_lt("id"@, "message"@)) by {
                    reveal_strlit("id");
                    reveal_strlit("message");
                    assert(lt_at("id"@, "message"@, 0));
                };
                assert(text_lt("message"@, "reason"@)) by {
                    reveal_strlit("message");
                    reveal_strlit("reason");
                    assert(lt_at("message"@, "reason"@, 0));
                };
                assert(text_lt("reason"@, "recoverable"@)) by {
                    reveal_strlit("reason");
                    reveal_strlit("recoverable");
                    assert(lt_at("reason"@, "recoverable"@, 2));
                };
                assert(text_lt("recoverable"@, "ts"@)) by {
                    reveal_strlit("recoverable");
                    reveal_strlit("ts");
                    assert(lt_at("recoverable"@, "ts"@, 0));
                };
                assert(text_lt("ts"@, "turnId"@)) by {
                    reveal_strlit("ts");
                    reveal_strlit("turnId");
                    assert(lt_at("ts"@, "turnId"@, 1));
                };
                assert(text_lt("turnId"@, "type"@)) by {
                    reveal_strlit("turnId");
                    reveal_strlit("type");
                    assert(lt_at("turnId"@, "type"@, 1));
                };
            },
            SessionEventView::Abort { .. } => {
                assert(text_lt("id"@, "reason"@)) by {
                    reveal_strlit("id");
                    reveal_strlit("reason");
                    assert(lt_at("id"@, "reason"@, 0));
                };
                assert(text_lt("reason"@, "ts"@)) by {
                    reveal_strlit("reason");
                    reveal_strlit("ts");
                    assert(lt_at("reason"@, "ts"@, 0));
                };
                assert(text_lt("ts"@, "turnId"@)) by {
                    reveal_strlit("ts");
                    reveal_strlit("turnId");
                    assert(lt_at("ts"@, "turnId"@, 1));
                };
                assert(text_lt("turnId"@, "type"@)) by {
                    reveal_strlit("turnId");
                    reveal_strlit("type");
                    assert(lt_at("turnId"@, "type"@, 1));
                };
            },
        }
        lemma_step_ascends(self.fields());
    }

    /// Reading what was written gives the same value back.
    pub proof fn lemma_round_trip(self)
        requires
            self.lossless(),
        ensures
            SessionEventView::of_json(self.json()) == Some(self),
    {
        let f = self.fields();
        self.lemma_keys();
        reveal_strlit("text_delta");
        reveal_strlit("text_complete");
        reveal_strlit("thinking_delta");
        reveal_strlit("thinking_complete");
        reveal_strlit("tool_call");
        reveal_strlit("tool_result");
        reveal_strlit("complete");
        reveal_strlit("error");
        reveal_strlit("abort");
        assert("text_delta"@.len() == 10);
        assert("text_complete"@.len() == 13);
        assert("thinking_delta"@.len() == 14);
        assert("thinking_complete"@.len() == 17);
        assert("tool_call"@.len() == 9);
        assert("tool_result"@.len() == 11);
        assert("complete"@.len() == 8);
        assert("error"@.len() == 5);
        assert("abort"@.len() == 5);
        assert("error"@[0] != "abort"@[0]);
        match self {
            SessionEventView::TextDelta { .. } => {
                assert(self.json().get("id"@) == f[0].1) by {
                    lemma_lookup(f, 0);
                };
                assert(self.json().get("messageId"@) == f[1].1) by {
                    lemma_lookup(f, 1);
                };
                assert(self.json().get("startOffset"@) == f[2].1) by {
                    lemma_lookup(f, 2);
                };
                assert(self.json().get("text"@) == f[3].1) by {
                    lemma_lookup(f, 3);
                };
                assert(self.json().get("ts"@) == f[4].1) by {
                    lemma_lookup(f, 4);
                };
                assert(self.json().get("turnId"@) == f[5].1) by {
                    lemma_lookup(f, 5);
                };
                assert(self.json().get("type"@) == f[6].1) by {
                    lemma_lookup(f, 6);
                };
            },
            SessionEventView::TextComplete { .. } => {
                assert(self.json().get("id"@) == f[0].1) by {
                    lemma_lookup(f, 0);
                };
                assert(self.json().get("messageId"@) == f[1].1) by {
                    lemma_lookup(f, 1);
                };
                assert(self.json().get("providerOptions"@) == f[2].1) by {
                    lemma_lookup(f, 2);
                };
                assert(self.json().get("text"@) == f[3].1) by {
                    lemma_lookup(f, 3);
                };
                assert(self.json().get("ts"@) == f[4].1) by {
                    lemma_lookup(f, 4);
                };
                assert(self.json().get("turnId"@) == f[5].1) by {
                    lemma_lookup(f, 5);
                };
                assert(self.json().get("type"@) == f[6].1) by {
                    lemma_lookup(f, 6);
                };
            },
            SessionEventView::ThinkingDelta { .. } => {
                assert(self.json().get("id"@) == f[0].1) by {
                    lemma_lookup(f, 0);
                };
                assert(self.json().get("messageId"@) == f[1].1) by {
                    lemma_lookup(f, 1);
                };
                assert(self.json().get("text"@) == f[2].1) by {
                    lemma_lookup(f, 2);
                };
                assert(self.json().get("ts"@) == f[3].1) by {
                    lemma_lookup(f, 3);
                };
                assert(self.json().get("turnId"@) == f[4].1) by {
                    lemma_lookup(f, 4);
                };
                assert(self.json().get("type"@) == f[5].1) by {
                    lemma_lookup(f, 5);
                };
            },
            SessionEventView::ThinkingComplete { .. } => {
                assert(self.json().get("id"@) == f[0].1) by {
                    lemma_lookup(f, 0);
                };
                assert(self.json().get("messageId"@) == f[1].1) by {
                    lemma_lookup(f, 1);
                };
                assert(self.json().get("signature"@) == f[2].1) by {
                    lemma_lookup(f, 2);
                };
                assert(self.json().get("text"@) == f[3].1) by {
                    lemma_lookup(f, 3);
                };
                assert(self.json().get("ts"@) == f[4].1) by {
                    lemma_lookup(f, 4);
                };
                assert(self.json().get("turnId"@) == f[5].1) by {
                    lemma_lookup(f, 5);
                };
                assert(self.json().get("type"@) == f[6].1) by {
                    lemma_lookup(f, 6);
                };
            },
            SessionEventView::ToolCall { .. } => {
                assert(self.json().get("args"@) == f[0].1) by {
                    lemma_lookup(f, 0);
                };
                assert(self.json().get("id"@) == f[1].1) by {
                    lemma_lookup(f, 1);
                };
                assert(self.json().get("toolCallId"@) == f[2].1) by {
                    lemma_lookup(f, 2);
                };
                assert(self.json().get("toolName"@) == f[3].1) by {
                    lemma_lookup(f, 3);
                };
                assert(self.json().get("ts"@) == f[4].1) by {
                    lemma_lookup(f, 4);
                };
                assert(self.json().get("turnId"@) == f[5].1) by {
                    lemma_lookup(f, 5);
                };
                assert(self.json().get("type"@) == f[6].1) by {
                    lemma_lookup(f, 6);
                };
            },
            SessionEventView::ToolResult { .. } => {
                assert(self.json().get("content"@) == f[0].1) by {
                    lemma_lookup(f, 0);
                };
                assert(self.json().get("id"@) == f[1].1) by {
                    lemma_lookup(f, 1);
                };
                assert(self.json().get("isError"@) == f[2].1) by {
                    lemma_lookup(f, 2);
                };
                assert(self.json().get("toolCallId"@) == f[3].1) by {
                    lemma_lookup(f, 3);
                };
                assert(self.json().get("toolName"@) == f[4].1) by {
                    lemma_lookup(f, 4);
                };
                assert(self.json().get("ts"@) == f[5].1) by {
                    lemma_lookup(f, 5);
                };
                assert(self.json().get("turnId"@) == f[6].1) by {
                    lemma_lookup(f, 6);
                };
                assert(self.json().get("type"@) == f[7].1) by {
                    lemma_lookup(f, 7);
                };
            },
            SessionEventView::Complete { stop_reason, .. } => {
                assert(self.json().get("id"@) == f[0].1) by {
                    lemma_lookup(f, 0);
                };
                assert(self.json().get("stopReason"@) == f[1].1) by {
                    lemma_lookup(f, 1);
                };
                assert(self.json().get("ts"@) == f[2].1) by {
                    lemma_lookup(f, 2);
                };
                assert(self.json().get("turnId"@) == f[3].1) by {
                    lemma_lookup(f, 3);
                };
                assert(self.json().get("type"@) == f[4].1) by {
                    lemma_lookup(f, 4);
                };
                stop_reason.lemma_wire();
            },
            SessionEventView::Error { .. } => {
                assert(self.json().get("code"@) == f[0].1) by {
                    lemma_lookup(f, 0);
                };
                assert(self.json().get("details"@) == f[1].1) by {
                    lemma_lookup(f, 1);
                };
                assert(self.json().get("id"@) == f[2].1) by {
                    lemma_lookup(f, 2);
                };
                assert(self.json().get("message"@) == f[3].1) by {
                    lemma_lookup(f, 3);
                };
                assert(self.json().get("reason"@) == f[4].1) by {
                    lemma_lookup(f, 4);
                };
                assert(self.json().get("recoverable"@) == f[5].1) by {
                    lemma_lookup(f, 5);
                };
                assert(self.json().get("ts"@) == f[6].1) by {
                    lemma_lookup(f, 6);
                };
                assert(self.json().get("turnId"@) == f[7].1) by {
                    lemma_lookup(f, 7);
                };
                assert(self.json().get("type"@) == f[8].1) by {
                    lemma_lookup(f, 8);
                };
            },
            SessionEventView::Abort { reason, .. } => {
                assert(self.json().get("id"@) == f[0].1) by {
                    lemma_lookup(f, 0);
                };
                assert(self.json().get("reason"@) == f[1].1) by {
                    lemma_lookup(f, 1);
                };
                assert(self.json().get("ts"@) == f[2].1) by {
                    lemma_lookup(f, 2);
                };
                assert(self.json().get("turnId"@) == f[3].1) by {
                    lemma_lookup(f, 3);
                };
                assert(self.json().get("type"@) == f[4].1) by {
                    lemma_lookup(f, 4);
                };
                reason.lemma_wire();
            },
        }
    }

    /// Every embedded JSON value fits an object nested `n` levels deep.
    pub open spec fn embeds_sound(self, n: int) -> bool {
        match self {
            SessionEventView::TextComplete { provider_options, .. } => (provider_options matches Some(x) ==> sound(x, n - 1)),
            SessionEventView::ToolCall { args, .. } => sound(args, n - 1),
            SessionEventView::Error { details, .. } => (details matches Some(x) ==> sound(x, n - 1)),
            _ => true,
        }
    }

    /// The JSON object reads back from its text.
    pub proof fn lemma_sound(self, n: int)
        requires
            n >= 1,
            self.embeds_sound(n),
        ensures
            sound(self.json(), n),
    {
        self.lemma_keys();
        lemma_sound_object(self.fields(), n);
    }
}

impl SessionEvent {
    /// The JSON object for this value.
    pub fn to_json(&self) -> (r: Json)
        ensures
            r@ == self@.json(),
    {
        let mut b = ObjectBuilder::new();
        match self {
            SessionEvent::TextDelta { id, turn_id, ts, message_id, start_offset, text } => {
                b.put_text("id", id.as_str());
                b.put_text("messageId", message_id.as_str());
                b.put_opt("startOffset", from_opt_u32(*start_offset));
                b.put_text("text", text.as_str());
                b.put("ts", Json::Int(*ts));
                b.put_text("turnId", turn_id.as_str());
                b.put_text("type", "text_delta");
            },
            SessionEvent::TextComplete { id, turn_id, ts, message_id, text, provider_options } => {
                b.put_text("id", id.as_str());
                b.put_text("messageId", message_id.as_str());
                b.put_opt("providerOptions", clone_opt_json(provider_options));
                b.put_text("text", text.as_str());
                b.put("ts", Json::Int(*ts));
                b.put_text("turnId", turn_id.as_str());
                b.put_text("type", "text_complete");
            },
            SessionEvent::ThinkingDelta { id, turn_id, ts, message_id, text } => {
                b.put_text("id", id.as_str());
                b.put_text("messageId", message_id.as_str());
                b.put_text("text", text.as_str());
                b.put("ts", Json::Int(*ts));
                b.put_text("turnId", turn_id.as_str());
                b.put_text("type", "thinking_delta");
            },
            SessionEvent::ThinkingComplete { id, turn_id, ts, message_id, text, signature } => {
                b.put_text("id", id.as_str());
                b.put_text("messageId", message_id.as_str());
                b.put_opt("signature", from_opt_text(signature));
                b.put_text("text", text.as_str());
                b.put("ts", Json::Int(*ts));
                b.put_text("turnId", turn_id.as_str());
                b.put_text("type", "thinking_complete");
            },
            SessionEvent::ToolCall { id, turn_id, ts, tool_call_id, tool_name, args } => {
                b.put("args", args.clone());
                b.put_text("id", id.as_str());
                b.put_text("toolCallId", tool_call_id.as_str());
                b.put_text("toolName", tool_name.as_str());
                b.put("ts", Json::Int(*ts));
                b.put_text("turnId", turn_id.as_str());
                b.put_text("type", "tool_call");
            },
            SessionEvent::ToolResult { id, turn_id, ts, tool_call_id, tool_name, content, is_error } => {
                b.put_text("content", content.as_str());
                b.put_text("id", id.as_str());
                b.put("isError", Json::Bool(*is_error));
                b.put_text("toolCallId", tool_call_id.as_str());
                b.put_text("toolName", tool_name.as_str());
                b.put("ts", Json::Int(*ts));
                b.put_text("turnId", turn_id.as_str());
                b.put_text("type", "tool_result");
            },
            SessionEvent::Complete { id, turn_id, ts, stop_reason } => {
                b.put_text("id", id.as_str());
                b.put("stopReason", stop_reason.to_json());
                b.put("ts", Json::Int(*ts));
                b.put_text("turnId", turn_id.as_str());
                b.put_text("type", "complete");
            },
            SessionEvent::Error { id, turn_id, ts, recoverable, message, code, reason, details } => {
                b.put_opt("code", from_opt_text(code));
                b.put_opt("details", clone_opt_json(details));
                b.put_text("id", id.as_str());
                b.put_text("message", message.as_str());
                b.put_opt("reason", from_opt_text(reason));
                b.put("recoverable", Json::Bool(*recoverable));
                b.put("ts", Json::Int(*ts));
                b.put_text("turnId", turn_id.as_str());
                b.put_text("type", "error");
            },
            SessionEvent::Abort { id, turn_id, ts, reason } => {
                b.put_text("id", id.as_str());
                b.put("reason", reason.to_json());
                b.put("ts", Json::Int(*ts));
                b.put_text("turnId", turn_id.as_str());
                b.put_text("type", "abort");
            },
        }
        assert(b.fields() == self@.fields());
        b.build()
    }

    /// Reads the value back from its JSON object, or from a list of its members in the
    /// order of declaration; unknown members are ignored.
    pub fn from_json(v: &Json) -> (r: Option<SessionEvent>)
        ensures
            match r {
                Some(x) => SessionEventView::of_json(v@) == Some(x@),
                None => SessionEventView::of_json(v@) is None,
            },
    {
        proof {
            SessionEventView::lemma_tags();
        }
        let tag = read_leading_text(v);
        if str_eq(tag.as_str(), "text_delta") {
            let names: [&str; 7] = ["type", "id", "turnId", "ts", "messageId", "startOffset", "text"];
            assert(key_views(names@) =~= SessionEventView::order("text_delta"@).0);
            return match listed_members(v, &names, 7) {
                Some(o) => SessionEvent::from_object(&o),
                None => SessionEvent::from_object(v),
            };
        }
        if str_eq(tag.as_str(), "text_complete") {
            let names: [&str; 7] = ["type", "id", "turnId", "ts", "messageId", "text", "providerOptions"];
            assert(key_views(names@) =~= SessionEventView::order("text_complete"@).0);
            return match listed_members(v, &names, 6) {
                Some(o) => SessionEvent::from_object(&o),
                None => SessionEvent::from_object(v),
            };
        }
        if str_eq(tag.as_str(), "thinking_delta") {
            let names: [&str; 6] = ["type", "id", "turnId", "ts", "messageId", "text"];
            assert(key_views(names@) =~= SessionEventView::order("thinking_delta"@).0);
            return match listed_members(v, &names, 6) {
                Some(o) => SessionEvent::from_object(&o),
                None => SessionEvent::from_object(v),
            };
        }
        if str_eq(tag.as_str(), "thinking_complete") {
            let names: [&str; 7] = ["type", "id", "turnId", "ts", "messageId", "text", "signature"];
            assert(key_views(names@) =~= SessionEventView::order("thinking_complete"@).0);
            return match listed_members(v, &names, 6) {
                Some(o) => SessionEvent::from_object(&o),
                None => SessionEvent::from_object(v),
            };
        }
        if str_eq(tag.as_str(), "tool_call") {
            let names: [&str; 7] = ["type", "id", "turnId", "ts", "toolCallId", "toolName", "args"];
            assert(key_views(names@) =~= SessionEventView::order("tool_call"@).0);
            return match listed_members(v, &names, 7) {
                Some(o) => SessionEvent::from_object(&o),
                None => SessionEvent::from_object(v),
            };
        }
        if str_eq(tag.as_str(), "tool_result") {
            let names: [&str; 8] = ["type", "id", "turnId", "ts", "toolCallId", "toolName", "content", "isError"];
            assert(key_views(names@) =~= SessionEventView::order("tool_result"@).0);
            return match listed_members(v, &names, 8) {
                Some(o) => SessionEvent::from_object(&o),
                None => SessionEvent::from_object(v),
            };
        }
        if str_eq(tag.as_str(), "complete") {
            let names: [&str; 5] = ["type", "id", "turnId", "ts", "stopReason"];
            assert(key_views(names@) =~= SessionEventView::order("complete"@).0);
            return match listed_members(v, &names, 5) {
                Some(o) => SessionEvent::from_object(&o),
                None => SessionEvent::from_object(v),
            };
        }
        if str_eq(tag.as_str(), "error") {
            let names: [&str; 9] = ["type", "id", "turnId", "ts", "recoverable", "message", "code", "reason", "details"];
            assert(key_views(names@) =~= SessionEventView::order("error"@).0);
            return match listed_members(v, &names, 6) {
                Some(o) => SessionEvent::from_object(&o),
                None => SessionEvent::from_object(v),
            };
        }
        if str_eq(tag.as_str(), "abort") {
            let names: [&str; 5] = ["type", "id", "turnId", "ts", "reason"];
            assert(key_views(names@) =~= SessionEventView::order("abort"@).0);
            return match listed_members(v, &names, 5) {
                Some(o) => SessionEvent::from_object(&o),
                None => SessionEvent::from_object(v),
            };
        }
        SessionEvent::from_object(v)
    }

    fn from_object(v: &Json) -> (r: Option<SessionEvent>)
        ensures
            match r {
                Some(x) => SessionEventView::of_object(v@) == Some(x@),
                None => SessionEventView::of_object(v@) is None,
            },
    {
        let tag = match v.text_at("type") {
            Some(s) => s,
            None => return None,
        };
        if str_eq(tag.as_str(), "text_delta") {
            let id = match v.text_at("id") {
                Some(x) => x,
                None => return None,
            };
            let turn_id = match v.text_at("turnId") {
                Some(x) => x,
                None => return None,
            };
            let ts = match read_i64(v, "ts") {
                Some(x) => x,
                None => return None,
            };
            let message_id = match v.text_at("messageId") {
                Some(x) => x,
                None => return None,
            };
            let start_offset = match read_opt_u32(v, "startOffset") {
                Some(x) => x,
                None => return None,
            };
            let text = match v.text_at("text") {
                Some(x) => x,
                None => return None,
            };
            Some(SessionEvent::TextDelta { id, turn_id, ts, message_id, start_offset, text })
        } else if str_eq(tag.as_str(), "text_complete") {
            let id = match v.text_at("id") {
                Some(x) => x,
                None => return None,
            };
            let turn_id = match v.text_at("turnId") {
                Some(x) => x,
                None => return None,
            };
            let ts = match read_i64(v, "ts") {
                Some(x) => x,
                None => return None,
            };
            let message_id = match v.text_at("messageId") {
                Some(x) => x,
                None => return None,
            };
            let text = match v.text_at("text") {
                Some(x) => x,
                None => return None,
            };
            let provider_options = read_opt_json(v, "providerOptions");
            Some(SessionEvent::TextComplete { id, turn_id, ts, message_id, text, provider_options })
        } else if str_eq(tag.as_str(), "thinking_delta") {
            let id = match v.text_at("id") {
                Some(x) => x,
                None => return None,
            };
            let turn_id = match v.text_at("turnId") {
                Some(x) => x,
                None => return None,
            };
            let ts = match read_i64(v, "ts") {
                Some(x) => x,
                None => return None,
            };
            let message_id = match v.text_at("messageId") {
                Some(x) => x,
                None => return None,
            };
            let text = match v.text_at("text") {
                Some(x) => x,
                None => return None,
            };
            Some(SessionEvent::ThinkingDelta { id, turn_id, ts, message_id, text })
        } else if str_eq(tag.as_str(), "thinking_complete") {
            let id = match v.text_at("id") {
                Some(x) => x,
                None => return None,
            };
            let turn_id = match v.text_at("turnId") {
                Some(x) => x,
                None => return None,
            };
            let ts = match read_i64(v, "ts") {
                Some(x) => x,
                None => return None,
            };
            let message_id = match v.text_at("messageId") {
                Some(x) => x,
                None => return None,
            };
            let text = match v.text_at("text") {
                Some(x) => x,
                None => return None,
            };
            let signature = match read_opt_text(v, "signature") {
                Some(x) => x,
                None => return None,
            };
            Some(SessionEvent::ThinkingComplete { id, turn_id, ts, message_id, text, signature })
        } else if str_eq(tag.as_str(), "tool_call") {
            let id = match v.text_at("id") {
                Some(x) => x,
                None => return None,
            };
            let turn_id = match v.text_at("turnId") {
                Some(x) => x,
                None => return None,
            };
            let ts = match read_i64(v, "ts") {
                Some(x) => x,
                None => return None,
            };
            let tool_call_id = match v.text_at("toolCallId") {
                Some(x) => x,
                None => return None,
            };
            let tool_name = match v.text_at("toolName") {
                Some(x) => x,
                None => return None,
            };
            let args = match v.get("args") {
                Some(x) => x.clone(),
                None => return None,
            };
            Some(SessionEvent::ToolCall { id, turn_id, ts, tool_call_id, tool_name, args })
        } else if str_eq(tag.as_str(), "tool_result") {
            let id = match v.text_at("id") {
                Some(x) => x,
                None => return None,
            };
            let turn_id = match v.text_at("turnId") {
                Some(x) => x,
                None => return None,
            };
            let ts = match read_i64(v, "ts") {
                Some(x) => x,
                None => return None,
            };
            let tool_call_id = match v.text_at("toolCallId") {
                Some(x) => x,
                None => return None,
            };
            let tool_name = match v.text_at("toolName") {
                Some(x) => x,
                None => return None,
            };
            let content = match v.text_at("content") {
                Some(x) => x,
                None => return None,
            };
            let is_error = match read_bool(v, "isError") {
                Some(x) => x,
                None => return None,
            };
            Some(SessionEvent::ToolResult { id, turn_id, ts, tool_call_id, tool_name, content, is_error })
        } else if str_eq(tag.as_str(), "complete") {
            let id = match v.text_at("id") {
                Some(x) => x,
                None => return None,
            };
            let turn_id = match v.text_at("turnId") {
                Some(x) => x,
                None => return None,
            };
            let ts = match read_i64(v, "ts") {
                Some(x) => x,
                None => return None,
            };
            let stop_reason = match v.get("stopReason") {
                Some(j) => match StopReason::from_tagged_json(j) {
                    Some(x) => x,
                    None => return None,
                },
                None => return None,
            };
            Some(SessionEvent::Complete { id, turn_id, ts, stop_reason })
        } else if str_eq(tag.as_str(), "error") {
            let id = match v.text_at("id") {
                Some(x) => x,
                None => return None,
            };
            let turn_id = match v.text_at("turnId") {
                Some(x) => x,
                None => return None,
            };
            let ts = match read_i64(v, "ts") {
                Some(x) => x,
                None => return None,
            };
            let recoverable = match read_bool(v, "recoverable") {
                Some(x) => x,
                None => return None,
            };
            let message = match v.text_at("message") {
                Some(x) => x,
                None => return None,
            };
            let code = match read_opt_text(v, "code") {
                Some(x) => x,
                None => return None,
            };
            let reason = match read_opt_text(v, "reason") {
                Some(x) => x,
                None => return None,
            };
            let details = read_opt_json(v, "details");
            Some(SessionEvent::Error { id, turn_id, ts, recoverable, message, code, reason, details })
        } else if str_eq(tag.as_str(), "abort") {
            let id = match v.text_at("id") {
                Some(x) => x,
                None => return None,
            };
            let turn_id = match v.text_at("turnId") {
                Some(x) => x,
                None => return None,
            };
            let ts = match read_i64(v, "ts") {
                Some(x) => x,
                None => return None,
            };
            let reason = match v.get("reason") {
                Some(j) => match AbortReason::from_tagged_json(j) {
                    Some(x) => x,
                    None => return None,
                },
                None => return None,
            };
            Some(SessionEvent::Abort { id, turn_id, ts, reason })
        } else {
            None
        }
    }
}

impl SessionEventView {
    /// The members of the JSON object, each under its own name.
    pub proof fn law_members(self)
        ensures
            match self {
                SessionEventView::TextDelta { id, turn_id, ts, message_id, start_offset, text } => {
                    &&& self.json().get("id"@) == (Some(JsonView::Text(id)))
                    &&& self.json().get("messageId"@) == (Some(JsonView::Text(message_id)))
                    &&& self.json().get("startOffset"@) == (opt_u32_json(start_offset))
                    &&& self.json().get("text"@) == (Some(JsonView::Text(text)))
                    &&& self.json().get("ts"@) == (Some(JsonView::Number(ts as int)))
                    &&& self.json().get("turnId"@) == (Some(JsonView::Text(turn_id)))
                    &&& self.json().get("type"@) == (Some(JsonView::Text("text_delta"@)))
                },
                SessionEventView::TextComplete { id, turn_id, ts, message_id, text, provider_options } => {
                    &&& self.json().get("id"@) == (Some(JsonView::Text(id)))
                    &&& self.json().get("messageId"@) == (Some(JsonView::Text(message_id)))
                    &&& self.json().get("providerOptions"@) == (provider_options)
                    &&& self.json().get("text"@) == (Some(JsonView::Text(text)))
                    &&& self.json().get("ts"@) == (Some(JsonView::Number(ts as int)))
                    &&& self.json().get("turnId"@) == (Some(JsonView::Text(turn_id)))
                    &&& self.json().get("type"@) == (Some(JsonView::Text("text_complete"@)))
                },
                SessionEventView::ThinkingDelta { id, turn_id, ts, message_id, text } => {
                    &&& self.json().get("id"@) == (Some(JsonView::Text(id)))
                    &&& self.json().get("messageId"@) == (Some(JsonView::Text(message_id)))
                    &&& self.json().get("text"@) == (Some(JsonView::Text(text)))
                    &&& self.json().get("ts"@) == (Some(JsonView::Number(ts as int)))
                    &&& self.json().get("turnId"@) == (Some(JsonView::Text(turn_id)))
                    &&& self.json().get("type"@) == (Some(JsonView::Text("thinking_delta"@)))
                },
                SessionEventView::ThinkingComplete { id, turn_id, ts, message_id, text, signature } => {
                    &&& self.json().get("id"@) == (Some(JsonView::Text(id)))
                    &&& self.json().get("messageId"@) == (Some(JsonView::Text(message_id)))
                    &&& self.json().get("signature"@) == (opt_text_json(signature))
                    &&& self.json().get("text"@) == (Some(JsonView::Text(text)))
                    &&& self.json().get("ts"@) == (Some(JsonView::Number(ts as int)))
                    &&& self.json().get("turnId"@) == (Some(JsonView::Text(turn_id)))
                    &&& self.json().get("type"@) == (Some(JsonView::Text("thinking_complete"@)))
                },
                SessionEventView::ToolCall { id, turn_id, ts, tool_call_id, tool_name, args } => {
                    &&& self.json().get("args"@) == (Some(args))
                    &&& self.json().get("id"@) == (Some(JsonView::Text(id)))
                    &&& self.json().get("toolCallId"@) == (Some(JsonView::Text(tool_call_id)))
                    &&& self.json().get("toolName"@) == (Some(JsonView::Text(tool_name)))
                    &&& self.json().get("ts"@) == (Some(JsonView::Number(ts as int)))
                    &&& self.json().get("turnId"@) == (Some(JsonView::Text(turn_id)))
                    &&& self.json().get("type"@) == (Some(JsonView::Text("tool_call"@)))
                },
                SessionEventView::ToolResult { id, turn_id, ts, tool_call_id, tool_name, content, is_error } => {
                    &&& self.json().get("content"@) == (Some(JsonView::Text(content)))
                    &&& self.json().get("id"@) == (Some(JsonView::Text(id)))
                    &&& self.json().get("isError"@) == (Some(JsonView::Bool(is_error)))
                    &&& self.json().get("toolCallId"@) == (Some(JsonView::Text(tool_call_id)))
                    &&& self.json().get("toolName"@) == (Some(JsonView::Text(tool_name)))
                    &&& self.json().get("ts"@) == (Some(JsonView::Number(ts as int)))
                    &&& self.json().get("turnId"@) == (Some(JsonView::Text(turn_id)))
                    &&& self.json().get("type"@) == (Some(JsonView::Text("tool_result"@)))
                },
                SessionEventView::Complete { id, turn_id, ts, stop_reason } => {
                    &&& self.json().get("id"@) == (Some(JsonView::Text(id)))
                    &&& self.json().get("stopReason"@) == (Some(stop_reason.json()))
                    &&& self.json().get("ts"@) == (Some(JsonView::Number(ts as int)))
                    &&& self.json().get("turnId"@) == (Some(JsonView::Text(turn_id)))
                    &&& self.json().get("type"@) == (Some(JsonView::Text("complete"@)))
                },
                SessionEventView::Error { id, turn_id, ts, recoverable, message, code, reason, details } => {
                    &&& self.json().get("code"@) == (opt_text_json(code))
                    &&& self.json().get("details"@) == (details)
                    &&& self.json().get("id"@) == (Some(JsonView::Text(id)))
                    &&& self.json().get("message"@) == (Some(JsonView::Text(message)))
                    &&& self.json().get("reason"@) == (opt_text_json(reason))
                    &&& self.json().get("recoverable"@) == (Some(JsonView::Bool(recoverable)))
                    &&& self.json().get("ts"@) == (Some(JsonView::Number(ts as int)))
                    &&& self.json().get("turnId"@) == (Some(JsonView::Text(turn_id)))
                    &&& self.json().get("type"@) == (Some(JsonView::Text("error"@)))
                },
                SessionEventView::Abort { id, turn_id, ts, reason } => {
                    &&& self.json().get("id"@) == (Some(JsonView::Text(id)))
                    &&& self.json().get("reason"@) == (Some(reason.json()))
                    &&& self.json().get("ts"@) == (Some(JsonView::Number(ts as int)))
                    &&& self.json().get("turnId"@) == (Some(JsonView::Text(turn_id)))
                    &&& self.json().get("type"@) == (Some(JsonView::Text("abort"@)))
                },
            },
    {
        let f = self.fields();
        self.lemma_keys();
        match self {
            SessionEventView::TextDelta { .. } => {
                lemma_lookup(f, 0);
                lemma_lookup(f, 1);
                lemma_lookup(f, 2);
                lemma_lookup(f, 3);
                lemma_lookup(f, 4);
                lemma_lookup(f, 5);
                lemma_lookup(f, 6);
            },
            SessionEventView::TextComplete { .. } => {
                lemma_lookup(f, 0);
                lemma_lookup(f, 1);
                lemma_lookup(f, 2);
                lemma_lookup(f, 3);
                lemma_lookup(f, 4);
                lemma_lookup(f, 5);
                lemma_lookup(f, 6);
            },
            SessionEventView::ThinkingDelta { .. } => {
                lemma_lookup(f, 0);
                lemma_lookup(f, 1);
                lemma_lookup(f, 2);
                lemma_lookup(f, 3);
                lemma_lookup(f, 4);
                lemma_lookup(f, 5);
            },
            SessionEventView::ThinkingComplete { .. } => {
                lemma_lookup(f, 0);
                lemma_lookup(f, 1);
                lemma_lookup(f, 2);
                lemma_lookup(f, 3);
                lemma_lookup(f, 4);
                lemma_lookup(f, 5);
                lemma_lookup(f, 6);
            },
            SessionEventView::ToolCall { .. } => {
                lemma_lookup(f, 0);
                lemma_lookup(f, 1);
                lemma_lookup(f, 2);
                lemma_lookup(f, 3);
                lemma_lookup(f, 4);
                lemma_lookup(f, 5);
                lemma_lookup(f, 6);
            },
            SessionEventView::ToolResult { .. } => {
                lemma_lookup(f, 0);
                lemma_lookup(f, 1);
                lemma_lookup(f, 2);
                lemma_lookup(f, 3);
                lemma_lookup(f, 4);
                lemma_lookup(f, 5);
                lemma_lookup(f, 6);
                lemma_lookup(f, 7);
            },
            SessionEventView::Complete { .. } => {
                lemma_lookup(f, 0);
                lemma_lookup(f, 1);
                lemma_lookup(f, 2);
                lemma_lookup(f, 3);
                lemma_lookup(f, 4);
            },
            SessionEventView::Error { .. } => {
                lemma_lookup(f, 0);
                lemma_lookup(f, 1);
                lemma_lookup(f, 2);
                lemma_lookup(f, 3);
                lemma_lookup(f, 4);
                lemma_lookup(f, 5);
                lemma_lookup(f, 6);
                lemma_lookup(f, 7);
                lemma_lookup(f, 8);
            },
            SessionEventView::Abort { .. } => {
                lemma_lookup(f, 0);
                lemma_lookup(f, 1);
                lemma_lookup(f, 2);
                lemma_lookup(f, 3);
                lemma_lookup(f, 4);
            },
        }
    }
}

} // verus!
