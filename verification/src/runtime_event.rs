//! Canonical runtime event contract: the single source of truth for the agent
//! runtime.
//!
//! Every execution fact (a user message, model text, a tool call or result, a
//! termination) is one append-only [`RuntimeEvent`]. Session state, model
//! context, the UI stream, crash recovery and scheduling are projections over a
//! log of these events.

use crate::digest::hex;
use crate::digest::hex_lower;
use crate::digest::sha256;
use crate::digest::sha256_of;
use crate::interaction::PermissionDecision;
use crate::json::Field;
use crate::json::Json;
use crate::json::JsonView;
use crate::json::MAX_NESTING;
use crate::json::ObjectBuilder;
use crate::json::json_text;
use crate::json::lemma_same_value_sorts_alike;
use crate::json::lemma_sorted_canonical;
use crate::json::opt;
use crate::json::present;
use crate::json::same_value;
use crate::json::sort_value_keys;
use crate::json::sorted;
use crate::json::sound;
use crate::json::value_parsed;
use crate::recovery_fact::ToolRecoveryFactEnvelope;
use crate::recovery_fact::ToolRecoveryFactEnvelopeView;
use crate::schema::clone_opt_json;
use crate::schema::opt_to_tree;
use crate::schema::opt_tree;
use crate::schema::clone_opt_text;
use crate::schema::from_opt_bool;
use crate::schema::from_opt_i64;
use crate::schema::from_opt_text;
use crate::schema::i64_at;
use crate::schema::keys_ascend;
use crate::schema::lemma_lookup;
use crate::schema::lemma_sound_object;
use crate::schema::lemma_step_ascends;
use crate::schema::member_at;
use crate::schema::opt_at;
use crate::schema::opt_bool_at;
use crate::schema::opt_bool_json;
use crate::schema::opt_i64_at;
use crate::schema::opt_i64_json;
use crate::schema::opt_text_at;
use crate::schema::opt_text_json;
use crate::schema::optional;
use crate::schema::read_i64;
use crate::schema::read_opt_bool;
use crate::schema::read_opt_i64;
use crate::schema::read_opt_json;
use crate::schema::read_opt_text;
use crate::schema::read_optional;
use crate::text::concat;
use crate::text::extend_bytes;
use crate::text::lt_at;
use crate::text::str_eq;
use crate::text::text_lt;
use vstd::utf8::encode_utf8;
use crate::json::tree;
use crate::schema::key_views;
use crate::schema::leading_text;
use crate::schema::listed_members;
use crate::schema::read_leading_text;
use crate::schema::read_variant;
use crate::schema::struct_form;
use crate::schema::variant_name;
use vstd::prelude::*;

verus! {

/// Conversation lane the event plays in model history.
#[derive(Debug, Clone, Copy, PartialEq, Eq, Hash, Structural)]
pub enum Role {
    User,
    Model,
    Tool,
    System,
}

impl Role {
    /// The name of the variant on the wire.
    pub open spec fn wire(self) -> Seq<char> {
        match self {
            Role::User => "user"@,
            Role::Model => "model"@,
            Role::Tool => "tool"@,
            Role::System => "system"@,
        }
    }

    /// The names on the wire: each variant is written, and read back, as its own.
    pub proof fn law_wire_names()
        ensures
            Role::User.wire() == "user"@,
            Role::of_wire("user"@) == Some(Role::User),
            Role::Model.wire() == "model"@,
            Role::of_wire("model"@) == Some(Role::Model),
            Role::Tool.wire() == "tool"@,
            Role::of_wire("tool"@) == Some(Role::Tool),
            Role::System.wire() == "system"@,
            Role::of_wire("system"@) == Some(Role::System),
    {
        Role::User.lemma_wire();
        Role::Model.lemma_wire();
        Role::Tool.lemma_wire();
        Role::System.lemma_wire();
    }

    pub open spec fn json(self) -> JsonView {
        JsonView::Text(self.wire())
    }

    /// The variant that `s` names on the wire.
    pub open spec fn of_wire(s: Seq<char>) -> Option<Role> {
        if s == "user"@ {
            Some(Role::User)
        } else if s == "model"@ {
            Some(Role::Model)
        } else if s == "tool"@ {
            Some(Role::Tool)
        } else if s == "system"@ {
            Some(Role::System)
        } else {
            None
        }
    }

    pub open spec fn of_json(v: JsonView) -> Option<Role> {
        match variant_name(v) {
            Some(s) => Role::of_wire(s),
            None => None,
        }
    }

    /// The name of the variant on the wire.
    pub fn as_str(self) -> (r: &'static str)
        ensures
            r@ == self.wire(),
    {
        match self {
            Role::User => "user",
            Role::Model => "model",
            Role::Tool => "tool",
            Role::System => "system",
        }
    }

    pub fn to_json(self) -> (r: Json)
        ensures
            r@ == self.json(),
    {
        Json::Text(self.as_str().to_owned())
    }

    /// The variant that `s` names on the wire.
    pub fn parse(s: &str) -> (r: Option<Role>)
        ensures
            r == Role::of_wire(s@),
    {
        if str_eq(s, "user") {
            Some(Role::User)
        } else if str_eq(s, "model") {
            Some(Role::Model)
        } else if str_eq(s, "tool") {
            Some(Role::Tool)
        } else if str_eq(s, "system") {
            Some(Role::System)
        } else {
            None
        }
    }

    pub fn from_json(v: &Json) -> (r: Option<Role>)
        ensures
            r == Role::of_json(v@),
    {
        match read_variant(v) {
            Some(s) => Role::parse(s.as_str()),
            None => None,
        }
    }

    /// Every variant is read back from its wire name.
    pub proof fn lemma_wire(self)
        ensures
            Role::of_wire(self.wire()) == Some(self),
            Role::of_json(self.json()) == Some(self),
    {
        reveal_strlit("user");
        reveal_strlit("model");
        reveal_strlit("tool");
        reveal_strlit("system");
        assert("user"@.len() == 4);
        assert("model"@.len() == 5);
        assert("tool"@.len() == 4);
        assert("system"@.len() == 6);
        assert("user"@[0] != "tool"@[0]);
    }
}

/// Which subsystem authored the fact, orthogonal to [`Role`].
#[derive(Debug, Clone, Copy, PartialEq, Eq, Hash, Structural)]
pub enum Author {
    User,
    Host,
    Agent,
    Tool,
    System,
}

impl Author {
    /// The name of the variant on the wire.
    pub open spec fn wire(self) -> Seq<char> {
        match self {
            Author::User => "user"@,
            Author::Host => "host"@,
            Author::Agent => "agent"@,
            Author::Tool => "tool"@,
            Author::System => "system"@,
        }
    }

    /// The names on the wire: each variant is written, and read back, as its own.
    pub proof fn law_wire_names()
        ensures
            Author::User.wire() == "user"@,
            Author::of_wire("user"@) == Some(Author::User),
            Author::Host.wire() == "host"@,
            Author::of_wire("host"@) == Some(Author::Host),
            Author::Agent.wire() == "agent"@,
            Author::of_wire("agent"@) == Some(Author::Agent),
            Author::Tool.wire() == "tool"@,
            Author::of_wire("tool"@) == Some(Author::Tool),
            Author::System.wire() == "system"@,
            Author::of_wire("system"@) == Some(Author::System),
    {
        Author::User.lemma_wire();
        Author::Host.lemma_wire();
        Author::Agent.lemma_wire();
        Author::Tool.lemma_wire();
        Author::System.lemma_wire();
    }

    pub open spec fn json(self) -> JsonView {
        JsonView::Text(self.wire())
    }

    /// The variant that `s` names on the wire.
    pub open spec fn of_wire(s: Seq<char>) -> Option<Author> {
        if s == "user"@ {
            Some(Author::User)
        } else if s == "host"@ {
            Some(Author::Host)
        } else if s == "agent"@ {
            Some(Author::Agent)
        } else if s == "tool"@ {
            Some(Author::Tool)
        } else if s == "system"@ {
            Some(Author::System)
        } else {
            None
        }
    }

    pub open spec fn of_json(v: JsonView) -> Option<Author> {
        match variant_name(v) {
            Some(s) => Author::of_wire(s),
            None => None,
        }
    }

    /// The name of the variant on the wire.
    pub fn as_str(self) -> (r: &'static str)
        ensures
            r@ == self.wire(),
    {
        match self {
            Author::User => "user",
            Author::Host => "host",
            Author::Agent => "agent",
            Author::Tool => "tool",
            Author::System => "system",
        }
    }

    pub fn to_json(self) -> (r: Json)
        ensures
            r@ == self.json(),
    {
        Json::Text(self.as_str().to_owned())
    }

    /// The variant that `s` names on the wire.
    pub fn parse(s: &str) -> (r: Option<Author>)
        ensures
            r == Author::of_wire(s@),
    {
        if str_eq(s, "user") {
            Some(Author::User)
        } else if str_eq(s, "host") {
            Some(Author::Host)
        } else if str_eq(s, "agent") {
            Some(Author::Agent)
        } else if str_eq(s, "tool") {
            Some(Author::Tool)
        } else if str_eq(s, "system") {
            Some(Author::System)
        } else {
            None
        }
    }

    pub fn from_json(v: &Json) -> (r: Option<Author>)
        ensures
            r == Author::of_json(v@),
    {
        match read_variant(v) {
            Some(s) => Author::parse(s.as_str()),
            None => None,
        }
    }

    /// Every variant is read back from its wire name.
    pub proof fn lemma_wire(self)
        ensures
            Author::of_wire(self.wire()) == Some(self),
            Author::of_json(self.json()) == Some(self),
    {
        reveal_strlit("user");
        reveal_strlit("host");
        reveal_strlit("agent");
        reveal_strlit("tool");
        reveal_strlit("system");
        assert("user"@.len() == 4);
        assert("host"@.len() == 4);
        assert("agent"@.len() == 5);
        assert("tool"@.len() == 4);
        assert("system"@.len() == 6);
        assert("user"@[0] != "host"@[0]);
        assert("user"@[0] != "tool"@[0]);
        assert("host"@[0] != "tool"@[0]);
    }
}

/// Lifecycle status an event asserts about its invocation. Absent on ordinary
/// in-flight content events.
#[derive(Debug, Clone, Copy, PartialEq, Eq, Hash, Structural)]
pub enum Status {
    Streaming,
    Completed,
    Failed,
    Aborted,
    Cancelled,
}

impl Status {
    /// The name of the variant on the wire.
    pub open spec fn wire(self) -> Seq<char> {
        match self {
            Status::Streaming => "streaming"@,
            Status::Completed => "completed"@,
            Status::Failed => "failed"@,
            Status::Aborted => "aborted"@,
            Status::Cancelled => "cancelled"@,
        }
    }

    /// The names on the wire: each variant is written, and read back, as its own.
    pub proof fn law_wire_names()
        ensures
            Status::Streaming.wire() == "streaming"@,
            Status::of_wire("streaming"@) == Some(Status::Streaming),
            Status::Completed.wire() == "completed"@,
            Status::of_wire("completed"@) == Some(Status::Completed),
            Status::Failed.wire() == "failed"@,
            Status::of_wire("failed"@) == Some(Status::Failed),
            Status::Aborted.wire() == "aborted"@,
            Status::of_wire("aborted"@) == Some(Status::Aborted),
            Status::Cancelled.wire() == "cancelled"@,
            Status::of_wire("cancelled"@) == Some(Status::Cancelled),
    {
        Status::Streaming.lemma_wire();
        Status::Completed.lemma_wire();
        Status::Failed.lemma_wire();
        Status::Aborted.lemma_wire();
        Status::Cancelled.lemma_wire();
    }

    pub open spec fn json(self) -> JsonView {
        JsonView::Text(self.wire())
    }

    /// The variant that `s` names on the wire.
    pub open spec fn of_wire(s: Seq<char>) -> Option<Status> {
        if s == "streaming"@ {
            Some(Status::Streaming)
        } else if s == "completed"@ {
            Some(Status::Completed)
        } else if s == "failed"@ {
            Some(Status::Failed)
        } else if s == "aborted"@ {
            Some(Status::Aborted)
        } else if s == "cancelled"@ {
            Some(Status::Cancelled)
        } else {
            None
        }
    }

    pub open spec fn of_json(v: JsonView) -> Option<Status> {
        match variant_name(v) {
            Some(s) => Status::of_wire(s),
            None => None,
        }
    }

    /// The name of the variant on the wire.
    pub fn as_str(self) -> (r: &'static str)
        ensures
            r@ == self.wire(),
    {
        match self {
            Status::Streaming => "streaming",
            Status::Completed => "completed",
            Status::Failed => "failed",
            Status::Aborted => "aborted",
            Status::Cancelled => "cancelled",
        }
    }

    pub fn to_json(self) -> (r: Json)
        ensures
            r@ == self.json(),
    {
        Json::Text(self.as_str().to_owned())
    }

    /// The variant that `s` names on the wire.
    pub fn parse(s: &str) -> (r: Option<Status>)
        ensures
            r == Status::of_wire(s@),
    {
        if str_eq(s, "streaming") {
            Some(Status::Streaming)
        } else if str_eq(s, "completed") {
            Some(Status::Completed)
        } else if str_eq(s, "failed") {
            Some(Status::Failed)
        } else if str_eq(s, "aborted") {
            Some(Status::Aborted)
        } else if str_eq(s, "cancelled") {
            Some(Status::Cancelled)
        } else {
            None
        }
    }

    pub fn from_json(v: &Json) -> (r: Option<Status>)
        ensures
            r == Status::of_json(v@),
    {
        match read_variant(v) {
            Some(s) => Status::parse(s.as_str()),
            None => None,
        }
    }

    /// Every variant is read back from its wire name.
    pub proof fn lemma_wire(self)
        ensures
            Status::of_wire(self.wire()) == Some(self),
            Status::of_json(self.json()) == Some(self),
    {
        reveal_strlit("streaming");
        reveal_strlit("completed");
        reveal_strlit("failed");
        reveal_strlit("aborted");
        reveal_strlit("cancelled");
        assert("streaming"@.len() == 9);
        assert("completed"@.len() == 9);
        assert("failed"@.len() == 6);
        assert("aborted"@.len() == 7);
        assert("cancelled"@.len() == 9);
        assert("streaming"@[0] != "completed"@[0]);
        assert("streaming"@[0] != "cancelled"@[0]);
        assert("completed"@[1] != "cancelled"@[1]);
    }
}

impl Status {
    /// Terminal statuses end an invocation: all but `Streaming`.
    pub open spec fn terminal(self) -> bool {
        !(self is Streaming)
    }

    /// Terminal statuses (completed/failed/aborted/cancelled) end an invocation.
    pub fn is_terminal(self) -> (r: bool)
        ensures
            r == self.terminal(),
    {
        matches!(self, Status::Completed | Status::Failed | Status::Aborted | Status::Cancelled)
    }
}

/// Execution surface that produced a fact.
#[derive(Debug, Clone, Copy, PartialEq, Eq, Hash, Structural)]
pub enum Origin {
    Provider,
    CodeMode,
}

impl Origin {
    /// The name of the variant on the wire.
    pub open spec fn wire(self) -> Seq<char> {
        match self {
            Origin::Provider => "provider"@,
            Origin::CodeMode => "code_mode"@,
        }
    }

    /// The names on the wire: each variant is written, and read back, as its own.
    pub proof fn law_wire_names()
        ensures
            Origin::Provider.wire() == "provider"@,
            Origin::of_wire("provider"@) == Some(Origin::Provider),
            Origin::CodeMode.wire() == "code_mode"@,
            Origin::of_wire("code_mode"@) == Some(Origin::CodeMode),
    {
        Origin::Provider.lemma_wire();
        Origin::CodeMode.lemma_wire();
    }

    pub open spec fn json(self) -> JsonView {
        JsonView::Text(self.wire())
    }

    /// The variant that `s` names on the wire.
    pub open spec fn of_wire(s: Seq<char>) -> Option<Origin> {
        if s == "provider"@ {
            Some(Origin::Provider)
        } else if s == "code_mode"@ {
            Some(Origin::CodeMode)
        } else {
            None
        }
    }

    pub open spec fn of_json(v: JsonView) -> Option<Origin> {
        match variant_name(v) {
            Some(s) => Origin::of_wire(s),
            None => None,
        }
    }

    /// The name of the variant on the wire.
    pub fn as_str(self) -> (r: &'static str)
        ensures
            r@ == self.wire(),
    {
        match self {
            Origin::Provider => "provider",
            Origin::CodeMode => "code_mode",
        }
    }

    pub fn to_json(self) -> (r: Json)
        ensures
            r@ == self.json(),
    {
        Json::Text(self.as_str().to_owned())
    }

    /// The variant that `s` names on the wire.
    pub fn parse(s: &str) -> (r: Option<Origin>)
        ensures
            r == Origin::of_wire(s@),
    {
        if str_eq(s, "provider") {
            Some(Origin::Provider)
        } else if str_eq(s, "code_mode") {
            Some(Origin::CodeMode)
        } else {
            None
        }
    }

    pub fn from_json(v: &Json) -> (r: Option<Origin>)
        ensures
            r == Origin::of_json(v@),
    {
        match read_variant(v) {
            Some(s) => Origin::parse(s.as_str()),
            None => None,
        }
    }

    /// Every variant is read back from its wire name.
    pub proof fn lemma_wire(self)
        ensures
            Origin::of_wire(self.wire()) == Some(self),
            Origin::of_json(self.json()) == Some(self),
    {
        reveal_strlit("provider");
        reveal_strlit("code_mode");
        assert("provider"@.len() == 8);
        assert("code_mode"@.len() == 9);
    }
}

/// Explicit provider-history policy. Absent means `visible`.
#[derive(Debug, Clone, Copy, PartialEq, Eq, Hash, Structural)]
pub enum ModelVisibility {
    Visible,
    Hidden,
}

impl ModelVisibility {
    /// The name of the variant on the wire.
    pub open spec fn wire(self) -> Seq<char> {
        match self {
            ModelVisibility::Visible => "visible"@,
            ModelVisibility::Hidden => "hidden"@,
        }
    }

    /// The names on the wire: each variant is written, and read back, as its own.
    pub proof fn law_wire_names()
        ensures
            ModelVisibility::Visible.wire() == "visible"@,
            ModelVisibility::of_wire("visible"@) == Some(ModelVisibility::Visible),
            ModelVisibility::Hidden.wire() == "hidden"@,
            ModelVisibility::of_wire("hidden"@) == Some(ModelVisibility::Hidden),
    {
        ModelVisibility::Visible.lemma_wire();
        ModelVisibility::Hidden.lemma_wire();
    }

    pub open spec fn json(self) -> JsonView {
        JsonView::Text(self.wire())
    }

    /// The variant that `s` names on the wire.
    pub open spec fn of_wire(s: Seq<char>) -> Option<ModelVisibility> {
        if s == "visible"@ {
            Some(ModelVisibility::Visible)
        } else if s == "hidden"@ {
            Some(ModelVisibility::Hidden)
        } else {
            None
        }
    }

    pub open spec fn of_json(v: JsonView) -> Option<ModelVisibility> {
        match variant_name(v) {
            Some(s) => ModelVisibility::of_wire(s),
            None => None,
        }
    }

    /// The name of the variant on the wire.
    pub fn as_str(self) -> (r: &'static str)
        ensures
            r@ == self.wire(),
    {
        match self {
            ModelVisibility::Visible => "visible",
            ModelVisibility::Hidden => "hidden",
        }
    }

    pub fn to_json(self) -> (r: Json)
        ensures
            r@ == self.json(),
    {
        Json::Text(self.as_str().to_owned())
    }

    /// The variant that `s` names on the wire.
    pub fn parse(s: &str) -> (r: Option<ModelVisibility>)
        ensures
            r == ModelVisibility::of_wire(s@),
    {
        if str_eq(s, "visible") {
            Some(ModelVisibility::Visible)
        } else if str_eq(s, "hidden") {
            Some(ModelVisibility::Hidden)
        } else {
            None
        }
    }

    pub fn from_json(v: &Json) -> (r: Option<ModelVisibility>)
        ensures
            r == ModelVisibility::of_json(v@),
    {
        match read_variant(v) {
            Some(s) => ModelVisibility::parse(s.as_str()),
            None => None,
        }
    }

    /// Every variant is read back from its wire name.
    pub proof fn lemma_wire(self)
        ensures
            ModelVisibility::of_wire(self.wire()) == Some(self),
            ModelVisibility::of_json(self.json()) == Some(self),
    {
        reveal_strlit("visible");
        reveal_strlit("hidden");
        assert("visible"@.len() == 7);
        assert("hidden"@.len() == 6);
    }
}

/// The model-facing payload, discriminated by `kind`.
#[derive(Debug, PartialEq)]
pub enum Content {
    Text {
        text: String,
        provider_options: Option<Json>,
        /// True when a user message is steered into a running turn.
        steering: Option<bool>,
    },
    Thinking {
        text: String,
        /// Signed thinking; re-sent verbatim on replay when present.
        signature: Option<String>,
        provider_options: Option<Json>,
    },
    FunctionCall {
        /// Matches the tool-call id the provider issued and the response.
        id: String,
        name: String,
        /// Opaque tool arguments.
        args: Json,
        provider_options: Option<Json>,
        provider_executed: Option<bool>,
    },
    FunctionResponse {
        /// Matches the function call's id.
        id: String,
        name: String,
        result: Json,
        is_error: Option<bool>,
        provider_executed: Option<bool>,
        provider_output: Option<Json>,
    },
    Error {
        message: String,
        code: Option<String>,
        /// Stable machine-readable reason for routing.
        reason: Option<String>,
        details: Option<Json>,
    },
}

/// What a [`Content`] says.
pub enum ContentView {
    Text {
        text: Seq<char>,
        provider_options: Option<JsonView>,
        steering: Option<bool>,
    },
    Thinking {
        text: Seq<char>,
        signature: Option<Seq<char>>,
        provider_options: Option<JsonView>,
    },
    FunctionCall {
        id: Seq<char>,
        name: Seq<char>,
        args: JsonView,
        provider_options: Option<JsonView>,
        provider_executed: Option<bool>,
    },
    FunctionResponse {
        id: Seq<char>,
        name: Seq<char>,
        result: JsonView,
        is_error: Option<bool>,
        provider_executed: Option<bool>,
        provider_output: Option<JsonView>,
    },
    Error {
        message: Seq<char>,
        code: Option<Seq<char>>,
        reason: Option<Seq<char>>,
        details: Option<JsonView>,
    },
}

impl View for Content {
    type V = ContentView;

    open spec fn view(&self) -> ContentView {
        match *self {
            Content::Text { text, provider_options, steering } => ContentView::Text {
                text: text@,
                provider_options: opt(provider_options),
                steering: steering,
            },
            Content::Thinking { text, signature, provider_options } => ContentView::Thinking {
                text: text@,
                signature: opt(signature),
                provider_options: opt(provider_options),
            },
            Content::FunctionCall { id, name, args, provider_options, provider_executed } => ContentView::FunctionCall {
                id: id@,
                name: name@,
                args: args@,
                provider_options: opt(provider_options),
                provider_executed: provider_executed,
            },
            Content::FunctionResponse { id, name, result, is_error, provider_executed, provider_output } => ContentView::FunctionResponse {
                id: id@,
                name: name@,
                result: result@,
                is_error: is_error,
                provider_executed: provider_executed,
                provider_output: opt(provider_output),
            },
            Content::Error { message, code, reason, details } => ContentView::Error {
                message: message@,
                code: opt(code),
                reason: opt(reason),
                details: opt(details),
            },
        }
    }
}

impl Clone for Content {
    fn clone(&self) -> (r: Self)
        ensures
            r@ == self@,
    {
        match self {
            Content::Text { text, provider_options, steering } => Content::Text {
                text: text.clone(),
                provider_options: clone_opt_json(provider_options),
                steering: *steering,
            },
            Content::Thinking { text, signature, provider_options } => Content::Thinking {
                text: text.clone(),
                signature: clone_opt_text(signature),
                provider_options: clone_opt_json(provider_options),
            },
            Content::FunctionCall { id, name, args, provider_options, provider_executed } => Content::FunctionCall {
                id: id.clone(),
                name: name.clone(),
                args: args.clone(),
                provider_options: clone_opt_json(provider_options),
                provider_executed: *provider_executed,
            },
            Content::FunctionResponse { id, name, result, is_error, provider_executed, provider_output } => Content::FunctionResponse {
                id: id.clone(),
                name: name.clone(),
                result: result.clone(),
                is_error: *is_error,
                provider_executed: *provider_executed,
                provider_output: clone_opt_json(provider_output),
            },
            Content::Error { message, code, reason, details } => Content::Error {
                message: message.clone(),
                code: clone_opt_text(code),
                reason: clone_opt_text(reason),
                details: clone_opt_json(details),
            },
        }
    }
}

impl ContentView {
    /// The members of the JSON object, in key order.
    pub open spec fn fields(self) -> Seq<Field> {
        match self {
            ContentView::Text { text, provider_options, steering } => Seq::empty()
                .push(("kind"@, Some(JsonView::Text("text"@))))
                .push(("providerOptions"@, provider_options))
                .push(("steering"@, opt_bool_json(steering)))
                .push(("text"@, Some(JsonView::Text(text)))),
            ContentView::Thinking { text, signature, provider_options } => Seq::empty()
                .push(("kind"@, Some(JsonView::Text("thinking"@))))
                .push(("providerOptions"@, provider_options))
                .push(("signature"@, opt_text_json(signature)))
                .push(("text"@, Some(JsonView::Text(text)))),
            ContentView::FunctionCall { id, name, args, provider_options, provider_executed } => Seq::empty()
                .push(("args"@, Some(args)))
                .push(("id"@, Some(JsonView::Text(id))))
                .push(("kind"@, Some(JsonView::Text("function_call"@))))
                .push(("name"@, Some(JsonView::Text(name))))
                .push(("providerExecuted"@, opt_bool_json(provider_executed)))
                .push(("providerOptions"@, provider_options)),
            ContentView::FunctionResponse { id, name, result, is_error, provider_executed, provider_output } => Seq::empty()
                .push(("id"@, Some(JsonView::Text(id))))
                .push(("isError"@, opt_bool_json(is_error)))
                .push(("kind"@, Some(JsonView::Text("function_response"@))))
                .push(("name"@, Some(JsonView::Text(name))))
                .push(("providerExecuted"@, opt_bool_json(provider_executed)))
                .push(("providerOutput"@, provider_output))
                .push(("result"@, Some(result))),
            ContentView::Error { message, code, reason, details } => Seq::empty()
                .push(("code"@, opt_text_json(code)))
                .push(("details"@, details))
                .push(("kind"@, Some(JsonView::Text("error"@))))
                .push(("message"@, Some(JsonView::Text(message))))
                .push(("reason"@, opt_text_json(reason))),
        }
    }

    pub open spec fn json(self) -> JsonView {
        JsonView::Object(present(self.fields()))
    }

    /// No optional member is the JSON value `null`, which reads back as absent.
    pub open spec fn lossless(self) -> bool {
        match self {
            ContentView::Text { provider_options, .. } => provider_options != Some(JsonView::Null),
            ContentView::Thinking { provider_options, .. } => provider_options != Some(JsonView::Null),
            ContentView::FunctionCall { provider_options, .. } => provider_options != Some(JsonView::Null),
            ContentView::FunctionResponse { provider_output, .. } => provider_output != Some(JsonView::Null),
            ContentView::Error { details, .. } => details != Some(JsonView::Null),
        }
    }

    /// The tags differ.
    proof fn lemma_tags()
        ensures
            ContentView::order("text"@).0 == seq!["kind"@, "text"@, "providerOptions"@, "steering"@],
            ContentView::order("text"@).1 == 2,
            ContentView::order("thinking"@).0 == seq!["kind"@, "text"@, "signature"@, "providerOptions"@],
            ContentView::order("thinking"@).1 == 2,
            ContentView::order("function_call"@).0 == seq!["kind"@, "id"@, "name"@, "args"@, "providerOptions"@, "providerExecuted"@],
            ContentView::order("function_call"@).1 == 4,
            ContentView::order("function_response"@).0 == seq!["kind"@, "id"@, "name"@, "result"@, "isError"@, "providerExecuted"@, "providerOutput"@],
            ContentView::order("function_response"@).1 == 4,
            ContentView::order("error"@).0 == seq!["kind"@, "message"@, "code"@, "reason"@, "details"@],
            ContentView::order("error"@).1 == 2,
    {
        reveal_strlit("text");
        reveal_strlit("thinking");
        reveal_strlit("function_call");
        reveal_strlit("function_response");
        reveal_strlit("error");
        assert("text"@.len() == 4);
        assert("thinking"@.len() == 8);
        assert("function_call"@.len() == 13);
        assert("function_response"@.len() == 17);
        assert("error"@.len() == 5);
    }

    /// The members of the variant `tag` in the order of declaration, the tag first, and
    /// how many of them a list must give.
    pub open spec fn order(tag: Seq<char>) -> (Seq<Seq<char>>, int) {
        if tag == "text"@ {
            (seq!["kind"@, "text"@, "providerOptions"@, "steering"@], 2)
        } else if tag == "thinking"@ {
            (seq!["kind"@, "text"@, "signature"@, "providerOptions"@], 2)
        } else if tag == "function_call"@ {
            (seq!["kind"@, "id"@, "name"@, "args"@, "providerOptions"@, "providerExecuted"@], 4)
        } else if tag == "function_response"@ {
            (seq!["kind"@, "id"@, "name"@, "result"@, "isError"@, "providerExecuted"@, "providerOutput"@], 4)
        } else if tag == "error"@ {
            (seq!["kind"@, "message"@, "code"@, "reason"@, "details"@], 2)
        } else {
            (Seq::empty(), 1)
        }
    }

    /// What the JSON value `v` says; `None` when it is neither such an object nor a list
    /// of its members.
    pub open spec fn of_json(v: JsonView) -> Option<ContentView> {
        let order = ContentView::order(leading_text(v));
        ContentView::of_object(struct_form(v, order.0, order.1))
    }

    /// What the JSON object `v` says; `None` when it is no such object.
    pub open spec fn of_object(v: JsonView) -> Option<ContentView> {
        let tag = v.text_at("kind"@);
        if tag == Some("text"@) {
            let text = v.text_at("text"@);
            let provider_options = Some(optional(v, "providerOptions"@));
            let steering = opt_bool_at(v, "steering"@);
            if text is Some && steering is Some {
                Some(
                    ContentView::Text {
                        text: text->0,
                        provider_options: provider_options->0,
                        steering: steering->0,
                    },
                )
            } else {
                None
            }
        } else if tag == Some("thinking"@) {
            let text = v.text_at("text"@);
            let signature = opt_text_at(v, "signature"@);
            let provider_options = Some(optional(v, "providerOptions"@));
            if text is Some && signature is Some {
                Some(
                    ContentView::Thinking {
                        text: text->0,
                        signature: signature->0,
                        provider_options: provider_options->0,
                    },
                )
            } else {
                None
            }
        } else if tag == Some("function_call"@) {
            let id = v.text_at("id"@);
            let name = v.text_at("name"@);
            let args = v.get("args"@);
            let provider_options = Some(optional(v, "providerOptions"@));
            let provider_executed = opt_bool_at(v, "providerExecuted"@);
            if id is Some && name is Some && args is Some && provider_executed is Some {
                Some(
                    ContentView::FunctionCall {
                        id: id->0,
                        name: name->0,
                        args: args->0,
                        provider_options: provider_options->0,
                        provider_executed: provider_executed->0,
                    },
                )
            } else {
                None
            }
        } else if tag == Some("function_response"@) {
            let id = v.text_at("id"@);
            let name = v.text_at("name"@);
            let result = v.get("result"@);
            let is_error = opt_bool_at(v, "isError"@);
            let provider_executed = opt_bool_at(v, "providerExecuted"@);
            let provider_output = Some(optional(v, "providerOutput"@));
            if id is Some && name is Some && result is Some && is_error is Some && provider_executed is Some {
                Some(
                    ContentView::FunctionResponse {
                        id: id->0,
                        name: name->0,
                        result: result->0,
                        is_error: is_error->0,
                        provider_executed: provider_executed->0,
                        provider_output: provider_output->0,
                    },
                )
            } else {
                None
            }
        } else if tag == Some("error"@) {
            let message = v.text_at("message"@);
            let code = opt_text_at(v, "code"@);
            let reason = opt_text_at(v, "reason"@);
            let details = Some(optional(v, "details"@));
            if message is Some && code is Some && reason is Some {
                Some(
                    ContentView::Error {
                        message: message->0,
                        code: code->0,
                        reason: reason->0,
                        details: details->0,
                    },
                )
            } else {
                None
            }
        } else {
            None
        }
    }

    proof fn lemma_keys(self)
        ensures
            keys_ascend(self.fields()),
    {
        match self {
            ContentView::Text { .. } => {
                assert(text_lt("kind"@, "providerOptions"@)) by {
                    reveal_strlit("kind");
                    reveal_strlit("providerOptions");
                    assert(lt_at("kind"@, "providerOptions"@, 0));
                };
                assert(text_lt("providerOptions"@, "steering"@)) by {
                    reveal_strlit("providerOptions");
                    reveal_strlit("steering");
                    assert(lt_at("providerOptions"@, "steering"@, 0));
                };
                assert(text_lt("steering"@, "text"@)) by {
                    reveal_strlit("steering");
                    reveal_strlit("text");
                    assert(lt_at("steering"@, "text"@, 0));
                };
            },
            ContentView::Thinking { .. } => {
                assert(text_lt("kind"@, "providerOptions"@)) by {
                    reveal_strlit("kind");
                    reveal_strlit("providerOptions");
                    assert(lt_at("kind"@, "providerOptions"@, 0));
                };
                assert(text_lt("providerOptions"@, "signature"@)) by {
                    reveal_strlit("providerOptions");
                    reveal_strlit("signature");
                    assert(lt_at("providerOptions"@, "signature"@, 0));
                };
                assert(text_lt("signature"@, "text"@)) by {
                    reveal_strlit("signature");
                    reveal_strlit("text");
                    assert(lt_at("signature"@, "text"@, 0));
                };
            },
            ContentView::FunctionCall { .. } => {
                assert(text_lt("args"@, "id"@)) by {
                    reveal_strlit("args");
                    reveal_strlit("id");
                    assert(lt_at("args"@, "id"@, 0));
                };
                assert(text_lt("id"@, "kind"@)) by {
                    reveal_strlit("id");
                    reveal_strlit("kind");
                    assert(lt_at("id"@, "kind"@, 0));
                };
                assert(text_lt("kind"@, "name"@)) by {
                    reveal_strlit("kind");
                    reveal_strlit("name");
                    assert(lt_at("kind"@, "name"@, 0));
                };
                assert(text_lt("name"@, "providerExecuted"@)) by {
                    reveal_strlit("name");
                    reveal_strlit("providerExecuted");
                    assert(lt_at("name"@, "providerExecuted"@, 0));
                };
                assert(text_lt("providerExecuted"@, "providerOptions"@)) by {
                    reveal_strlit("providerExecuted");
                    reveal_strlit("providerOptions");
                    assert(lt_at("providerExecuted"@, "providerOptions"@, 8));
                };
            },
            ContentView::FunctionResponse { .. } => {
                assert(text_lt("id"@, "isError"@)) by {
                    reveal_strlit("id");
                    reveal_strlit("isError");
                    assert(lt_at("id"@, "isError"@, 1));
                };
                assert(text_lt("isError"@, "kind"@)) by {
                    reveal_strlit("isError");
                    reveal_strlit("kind");
                    assert(lt_at("isError"@, "kind"@, 0));
                };
                assert(text_lt("kind"@, "name"@)) by {
                    reveal_strlit("kind");
                    reveal_strlit("name");
                    assert(lt_at("kind"@, "name"@, 0));
                };
                assert(text_lt("name"@, "providerExecuted"@)) by {
                    reveal_strlit("name");
                    reveal_strlit("providerExecuted");
                    assert(lt_at("name"@, "providerExecuted"@, 0));
                };
                assert(text_lt("providerExecuted"@, "providerOutput"@)) by {
                    reveal_strlit("providerExecuted");
                    reveal_strlit("providerOutput");
                    assert(lt_at("providerExecuted"@, "providerOutput"@, 8));
                };
                assert(text_lt("providerOutput"@, "result"@)) by {
                    reveal_strlit("providerOutput");
                    reveal_strlit("result");
                    assert(lt_at("providerOutput"@, "result"@, 0));
                };
            },
            ContentView::Error { .. } => {
                assert(text_lt("code"@, "details"@)) by {
                    reveal_strlit("code");
                    reveal_strlit("details");
                    assert(lt_at("code"@, "details"@, 0));
                };
                assert(text_lt("details"@, "kind"@)) by {
                    reveal_strlit("details");
                    reveal_strlit("kind");
                    assert(lt_at("details"@, "kind"@, 0));
                };
                assert(text_lt("kind"@, "message"@)) by {
                    reveal_strlit("kind");
                    reveal_strlit("message");
                    assert(lt_at("kind"@, "message"@, 0));
                };
                assert(text_lt("message"@, "reason"@)) by {
                    reveal_strlit("message");
                    reveal_strlit("reason");
                    assert(lt_at("message"@, "reason"@, 0));
                };
            },
        }
        lemma_step_ascends(self.fields());
    }

    /// Reading what was written gives the same value back.
    pub proof fn lemma_round_trip(self)
        requires
            self.lossless(),
        ensures
            ContentView::of_json(self.json()) == Some(self),
    {
        let f = self.fields();
        self.lemma_keys();
        reveal_strlit("text");
        reveal_strlit("thinking");
        reveal_strlit("function_call");
        reveal_strlit("function_response");
        reveal_strlit("error");
        assert("text"@.len() == 4);
        assert("thinking"@.len() == 8);
        assert("function_call"@.len() == 13);
        assert("function_response"@.len() == 17);
        assert("error"@.len() == 5);
        match self {
            ContentView::Text { .. } => {
                assert(self.json().get("kind"@) == f[0].1) by {
                    lemma_lookup(f, 0);
                };
                assert(self.json().get("providerOptions"@) == f[1].1) by {
                    lemma_lookup(f, 1);
                };
                assert(self.json().get("steering"@) == f[2].1) by {
                    lemma_lookup(f, 2);
                };
                assert(self.json().get("text"@) == f[3].1) by {
                    lemma_lookup(f, 3);
                };
            },
            ContentView::Thinking { .. } => {
                assert(self.json().get("kind"@) == f[0].1) by {
                    lemma_lookup(f, 0);
                };
                assert(self.json().get("providerOptions"@) == f[1].1) by {
                    lemma_lookup(f, 1);
                };
                assert(self.json().get("signature"@) == f[2].1) by {
                    lemma_lookup(f, 2);
                };
                assert(self.json().get("text"@) == f[3].1) by {
                    lemma_lookup(f, 3);
                };
            },
            ContentView::FunctionCall { .. } => {
                assert(self.json().get("args"@) == f[0].1) by {
                    lemma_lookup(f, 0);
                };
                assert(self.json().get("id"@) == f[1].1) by {
                    lemma_lookup(f, 1);
                };
                assert(self.json().get("kind"@) == f[2].1) by {
                    lemma_lookup(f, 2);
                };
                assert(self.json().get("name"@) == f[3].1) by {
                    lemma_lookup(f, 3);
                };
                assert(self.json().get("providerExecuted"@) == f[4].1) by {
                    lemma_lookup(f, 4);
                };
                assert(self.json().get("providerOptions"@) == f[5].1) by {
                    lemma_lookup(f, 5);
                };
            },
            ContentView::FunctionResponse { .. } => {
                assert(self.json().get("id"@) == f[0].1) by {
                    lemma_lookup(f, 0);
                };
                assert(self.json().get("isError"@) == f[1].1) by {
                    lemma_lookup(f, 1);
                };
                assert(self.json().get("kind"@) == f[2].1) by {
                    lemma_lookup(f, 2);
                };
                assert(self.json().get("name"@) == f[3].1) by {
                    lemma_lookup(f, 3);
                };
                assert(self.json().get("providerExecuted"@) == f[4].1) by {
                    lemma_lookup(f, 4);
                };
                assert(self.json().get("providerOutput"@) == f[5].1) by {
                    lemma_lookup(f, 5);
                };
                assert(self.json().get("result"@) == f[6].1) by {
                    lemma_lookup(f, 6);
                };
            },
            ContentView::Error { .. } => {
                assert(self.json().get("code"@) == f[0].1) by {
                    lemma_lookup(f, 0);
                };
                assert(self.json().get("details"@) == f[1].1) by {
                    lemma_lookup(f, 1);
                };
                assert(self.json().get("kind"@) == f[2].1) by {
                    lemma_lookup(f, 2);
                };
                assert(self.json().get("message"@) == f[3].1) by {
                    lemma_lookup(f, 3);
                };
                assert(self.json().get("reason"@) == f[4].1) by {
                    lemma_lookup(f, 4);
                };
            },
        }
    }

    /// Every embedded JSON value fits an object nested `n` levels deep.
    pub open spec fn embeds_sound(self, n: int) -> bool {
        match self {
            ContentView::Text { provider_options, .. } => (provider_options matches Some(x) ==> sound(x, n - 1)),
            ContentView::Thinking { provider_options, .. } => (provider_options matches Some(x) ==> sound(x, n - 1)),
            ContentView::FunctionCall { args, provider_options, .. } => sound(args, n - 1) && (provider_options matches Some(x) ==> sound(x, n - 1)),
            ContentView::FunctionResponse { result, provider_output, .. } => sound(result, n - 1) && (provider_output matches Some(x) ==> sound(x, n - 1)),
            ContentView::Error { details, .. } => (details matches Some(x) ==> sound(x, n - 1)),
        }
    }

    /// The JSON object reads back from its text.
    pub proof fn lemma_sound(self, n: int)
        requires
            n >= 1,
            self.embeds_sound(n),
        ensures
            sound(self.json(), n),
    {
        self.lemma_keys();
        lemma_sound_object(self.fields(), n);
    }
}

impl Content {
    /// The JSON object for this value.
    pub fn to_json(&self) -> (r: Json)
        ensures
            r@ == self@.json(),
    {
        let mut b = ObjectBuilder::new();
        match self {
            Content::Text { text, provider_options, steering } => {
                b.put_text("kind", "text");
                b.put_opt("providerOptions", clone_opt_json(provider_options));
                b.put_opt("steering", from_opt_bool(*steering));
                b.put_text("text", text.as_str());
            },
            Content::Thinking { text, signature, provider_options } => {
                b.put_text("kind", "thinking");
                b.put_opt("providerOptions", clone_opt_json(provider_options));
                b.put_opt("signature", from_opt_text(signature));
                b.put_text("text", text.as_str());
            },
            Content::FunctionCall { id, name, args, provider_options, provider_executed } => {
                b.put("args", args.clone());
                b.put_text("id", id.as_str());
                b.put_text("kind", "function_call");
                b.put_text("name", name.as_str());
                b.put_opt("providerExecuted", from_opt_bool(*provider_executed));
                b.put_opt("providerOptions", clone_opt_json(provider_options));
            },
            Content::FunctionResponse { id, name, result, is_error, provider_executed, provider_output } => {
                b.put_text("id", id.as_str());
                b.put_opt("isError", from_opt_bool(*is_error));
                b.put_text("kind", "function_response");
                b.put_text("name", name.as_str());
                b.put_opt("providerExecuted", from_opt_bool(*provider_executed));
                b.put_opt("providerOutput", clone_opt_json(provider_output));
                b.put("result", result.clone());
            },
            Content::Error { message, code, reason, details } => {
                b.put_opt("code", from_opt_text(code));
                b.put_opt("details", clone_opt_json(details));
                b.put_text("kind", "error");
                b.put_text("message", message.as_str());
                b.put_opt("reason", from_opt_text(reason));
            },
        }
        assert(b.fields() == self@.fields());
        b.build()
    }

    /// Reads the value back from its JSON object, or from a list of its members in the
    /// order of declaration; unknown members are ignored.
    pub fn from_json(v: &Json) -> (r: Option<Content>)
        ensures
            match r {
                Some(x) => ContentView::of_json(v@) == Some(x@),
                None => ContentView::of_json(v@) is None,
            },
    {
        proof {
            ContentView::lemma_tags();
        }
        let tag = read_leading_text(v);
        if str_eq(tag.as_str(), "text") {
            let names: [&str; 4] = ["kind", "text", "providerOptions", "steering"];
            assert(key_views(names@) =~= ContentView::order("text"@).0);
            return match listed_members(v, &names, 2) {
                Some(o) => Content::from_object(&o),
                None => Content::from_object(v),
            };
        }
        if str_eq(tag.as_str(), "thinking") {
            let names: [&str; 4] = ["kind", "text", "signature", "providerOptions"];
            assert(key_views(names@) =~= ContentView::order("thinking"@).0);
            return match listed_members(v, &names, 2) {
                Some(o) => Content::from_object(&o),
                None => Content::from_object(v),
            };
        }
        if str_eq(tag.as_str(), "function_call") {
            let names: [&str; 6] = ["kind", "id", "name", "args", "providerOptions", "providerExecuted"];
            assert(key_views(names@) =~= ContentView::order("function_call"@).0);
            return match listed_members(v, &names, 4) {
                Some(o) => Content::from_object(&o),
                None => Content::from_object(v),
            };
        }
        if str_eq(tag.as_str(), "function_response") {
            let names: [&str; 7] = ["kind", "id", "name", "result", "isError", "providerExecuted", "providerOutput"];
            assert(key_views(names@) =~= ContentView::order("function_response"@).0);
            return match listed_members(v, &names, 4) {
                Some(o) => Content::from_object(&o),
                None => Content::from_object(v),
            };
        }
        if str_eq(tag.as_str(), "error") {
            let names: [&str; 5] = ["kind", "message", "code", "reason", "details"];
            assert(key_views(names@) =~= ContentView::order("error"@).0);
            return match listed_members(v, &names, 2) {
                Some(o) => Content::from_object(&o),
                None => Content::from_object(v),
            };
        }
        Content::from_object(v)
    }

    fn from_object(v: &Json) -> (r: Option<Content>)
        ensures
            match r {
                Some(x) => ContentView::of_object(v@) == Some(x@),
                None => ContentView::of_object(v@) is None,
            },
    {
        let tag = match v.text_at("kind") {
            Some(s) => s,
            None => return None,
        };
        if str_eq(tag.as_str(), "text") {
            let text = match v.text_at("text") {
                Some(x) => x,
                None => return None,
            };
            let provider_options = read_opt_json(v, "providerOptions");
            let steering = match read_opt_bool(v, "steering") {
                Some(x) => x,
                None => return None,
            };
            Some(Content::Text { text, provider_options, steering })
        } else if str_eq(tag.as_str(), "thinking") {
            let text = match v.text_at("text") {
                Some(x) => x,
                None => return None,
            };
            let signature = match read_opt_text(v, "signature") {
                Some(x) => x,
                None => return None,
            };
            let provider_options = read_opt_json(v, "providerOptions");
            Some(Content::Thinking { text, signature, provider_options })
        } else if str_eq(tag.as_str(), "function_call") {
            let id = match v.text_at("id") {
                Some(x) => x,
                None => return None,
            };
            let name = match v.text_at("name") {
                Some(x) => x,
                None => return None,
            };
            let args = match v.get("args") {
                Some(x) => x.clone(),
                None => return None,
            };
            let provider_options = read_opt_json(v, "providerOptions");
            let provider_executed = match read_opt_bool(v, "providerExecuted") {
                Some(x) => x,
                None => return None,
            };
            Some(Content::FunctionCall { id, name, args, provider_options, provider_executed })
        } else if str_eq(tag.as_str(), "function_response") {
            let id = match v.text_at("id") {
                Some(x) => x,
                None => return None,
            };
            let name = match v.text_at("name") {
                Some(x) => x,
                None => return None,
            };
            let result = match v.get("result") {
                Some(x) => x.clone(),
                None => return None,
            };
            let is_error = match read_opt_bool(v, "isError") {
                Some(x) => x,
                None => return None,
            };
            let provider_executed = match read_opt_bool(v, "providerExecuted") {
                Some(x) => x,
                None => return None,
            };
            let provider_output = read_opt_json(v, "providerOutput");
            Some(Content::FunctionResponse { id, name, result, is_error, provider_executed, provider_output })
        } else if str_eq(tag.as_str(), "error") {
            let message = match v.text_at("message") {
                Some(x) => x,
                None => return None,
            };
            let code = match read_opt_text(v, "code") {
                Some(x) => x,
                None => return None,
            };
            let reason = match read_opt_text(v, "reason") {
                Some(x) => x,
                None => return None,
            };
            let details = read_opt_json(v, "details");
            Some(Content::Error { message, code, reason, details })
        } else {
            None
        }
    }
}

impl ContentView {
    /// The members of the JSON object, the tag first, then in the order of declaration.
    pub open spec fn declared_fields(self) -> Seq<Field> {
        match self {
            ContentView::Text { text, provider_options, steering } => Seq::empty()
                .push(("kind"@, Some(JsonView::Text("text"@))))
                .push(("text"@, Some(JsonView::Text(text))))
                .push(("providerOptions"@, opt_tree(provider_options)))
                .push(("steering"@, opt_bool_json(steering))),
            ContentView::Thinking { text, signature, provider_options } => Seq::empty()
                .push(("kind"@, Some(JsonView::Text("thinking"@))))
                .push(("text"@, Some(JsonView::Text(text))))
                .push(("signature"@, opt_text_json(signature)))
                .push(("providerOptions"@, opt_tree(provider_options))),
            ContentView::FunctionCall { id, name, args, provider_options, provider_executed } => Seq::empty()
                .push(("kind"@, Some(JsonView::Text("function_call"@))))
                .push(("id"@, Some(JsonView::Text(id))))
                .push(("name"@, Some(JsonView::Text(name))))
                .push(("args"@, Some(tree(args))))
                .push(("providerOptions"@, opt_tree(provider_options)))
                .push(("providerExecuted"@, opt_bool_json(provider_executed))),
            ContentView::FunctionResponse { id, name, result, is_error, provider_executed, provider_output } => Seq::empty()
                .push(("kind"@, Some(JsonView::Text("function_response"@))))
                .push(("id"@, Some(JsonView::Text(id))))
                .push(("name"@, Some(JsonView::Text(name))))
                .push(("result"@, Some(tree(result))))
                .push(("isError"@, opt_bool_json(is_error)))
                .push(("providerExecuted"@, opt_bool_json(provider_executed)))
                .push(("providerOutput"@, opt_tree(provider_output))),
            ContentView::Error { message, code, reason, details } => Seq::empty()
                .push(("kind"@, Some(JsonView::Text("error"@))))
                .push(("message"@, Some(JsonView::Text(message))))
                .push(("code"@, opt_text_json(code)))
                .push(("reason"@, opt_text_json(reason)))
                .push(("details"@, opt_tree(details))),
        }
    }

    pub open spec fn declared_json(self) -> JsonView {
        JsonView::Object(present(self.declared_fields()))
    }
}

impl Content {
    /// The JSON object, the tag first, then in the order of declaration.
    pub fn to_declared_json(&self) -> (r: Json)
        ensures
            r@ == self@.declared_json(),
    {
        let mut b = ObjectBuilder::new();
        match self {
            Content::Text { text, provider_options, steering } => {
                b.put_text("kind", "text");
                b.put_text("text", text.as_str());
                b.put_opt("providerOptions", opt_to_tree(provider_options));
                b.put_opt("steering", from_opt_bool(*steering));
            },
            Content::Thinking { text, signature, provider_options } => {
                b.put_text("kind", "thinking");
                b.put_text("text", text.as_str());
                b.put_opt("signature", from_opt_text(signature));
                b.put_opt("providerOptions", opt_to_tree(provider_options));
            },
            Content::FunctionCall { id, name, args, provider_options, provider_executed } => {
                b.put_text("kind", "function_call");
                b.put_text("id", id.as_str());
                b.put_text("name", name.as_str());
                b.put("args", args.to_tree());
                b.put_opt("providerOptions", opt_to_tree(provider_options));
                b.put_opt("providerExecuted", from_opt_bool(*provider_executed));
            },
            Content::FunctionResponse { id, name, result, is_error, provider_executed, provider_output } => {
                b.put_text("kind", "function_response");
                b.put_text("id", id.as_str());
                b.put_text("name", name.as_str());
                b.put("result", result.to_tree());
                b.put_opt("isError", from_opt_bool(*is_error));
                b.put_opt("providerExecuted", from_opt_bool(*provider_executed));
                b.put_opt("providerOutput", opt_to_tree(provider_output));
            },
            Content::Error { message, code, reason, details } => {
                b.put_text("kind", "error");
                b.put_text("message", message.as_str());
                b.put_opt("code", from_opt_text(code));
                b.put_opt("reason", from_opt_text(reason));
                b.put_opt("details", opt_to_tree(details));
            },
        }
        assert(b.fields() == self@.declared_fields());
        b.build()
    }
}

/// The tool-boundary protocol marker value. Its presence on a run's first event
/// tells recovery that tool calls go through the durable dispatch path.
pub const TOOL_BOUNDARY_PROTOCOL_V1: &'static str = "t1_after_preflight_v1";

/// What recovery may do with a tool side-effect boundary.
#[derive(Debug, Clone, Copy, PartialEq, Eq, Structural)]
pub enum ToolRecoveryMode {
    ReplaySafe,
    Idempotent,
    Reconcile,
    Reattach,
    OutcomeUnknown,
    NeverAutoRetry,
}

impl ToolRecoveryMode {
    /// The name of the variant on the wire.
    pub open spec fn wire(self) -> Seq<char> {
        match self {
            ToolRecoveryMode::ReplaySafe => "replay_safe"@,
            ToolRecoveryMode::Idempotent => "idempotent"@,
            ToolRecoveryMode::Reconcile => "reconcile"@,
            ToolRecoveryMode::Reattach => "reattach"@,
            ToolRecoveryMode::OutcomeUnknown => "outcome_unknown"@,
            ToolRecoveryMode::NeverAutoRetry => "never_auto_retry"@,
        }
    }

    /// The names on the wire: each variant is written, and read back, as its own.
    pub proof fn law_wire_names()
        ensures
            ToolRecoveryMode::ReplaySafe.wire() == "replay_safe"@,
            ToolRecoveryMode::of_wire("replay_safe"@) == Some(ToolRecoveryMode::ReplaySafe),
            ToolRecoveryMode::Idempotent.wire() == "idempotent"@,
            ToolRecoveryMode::of_wire("idempotent"@) == Some(ToolRecoveryMode::Idempotent),
            ToolRecoveryMode::Reconcile.wire() == "reconcile"@,
            ToolRecoveryMode::of_wire("reconcile"@) == Some(ToolRecoveryMode::Reconcile),
            ToolRecoveryMode::Reattach.wire() == "reattach"@,
            ToolRecoveryMode::of_wire("reattach"@) == Some(ToolRecoveryMode::Reattach),
            ToolRecoveryMode::OutcomeUnknown.wire() == "outcome_unknown"@,
            ToolRecoveryMode::of_wire("outcome_unknown"@) == Some(ToolRecoveryMode::OutcomeUnknown),
            ToolRecoveryMode::NeverAutoRetry.wire() == "never_auto_retry"@,
            ToolRecoveryMode::of_wire("never_auto_retry"@) == Some(ToolRecoveryMode::NeverAutoRetry),
    {
        ToolRecoveryMode::ReplaySafe.lemma_wire();
        ToolRecoveryMode::Idempotent.lemma_wire();
        ToolRecoveryMode::Reconcile.lemma_wire();
        ToolRecoveryMode::Reattach.lemma_wire();
        ToolRecoveryMode::OutcomeUnknown.lemma_wire();
        ToolRecoveryMode::NeverAutoRetry.lemma_wire();
    }

    pub open spec fn json(self) -> JsonView {
        JsonView::Text(self.wire())
    }

    /// The variant that `s` names on the wire.
    pub open spec fn of_wire(s: Seq<char>) -> Option<ToolRecoveryMode> {
        if s == "replay_safe"@ {
            Some(ToolRecoveryMode::ReplaySafe)
        } else if s == "idempotent"@ {
            Some(ToolRecoveryMode::Idempotent)
        } else if s == "reconcile"@ {
            Some(ToolRecoveryMode::Reconcile)
        } else if s == "reattach"@ {
            Some(ToolRecoveryMode::Reattach)
        } else if s == "outcome_unknown"@ {
            Some(ToolRecoveryMode::OutcomeUnknown)
        } else if s == "never_auto_retry"@ {
            Some(ToolRecoveryMode::NeverAutoRetry)
        } else {
            None
        }
    }

    pub open spec fn of_json(v: JsonView) -> Option<ToolRecoveryMode> {
        match variant_name(v) {
            Some(s) => ToolRecoveryMode::of_wire(s),
            None => None,
        }
    }

    /// The name of the variant on the wire.
    pub fn as_str(self) -> (r: &'static str)
        ensures
            r@ == self.wire(),
    {
        match self {
            ToolRecoveryMode::ReplaySafe => "replay_safe",
            ToolRecoveryMode::Idempotent => "idempotent",
            ToolRecoveryMode::Reconcile => "reconcile",
            ToolRecoveryMode::Reattach => "reattach",
            ToolRecoveryMode::OutcomeUnknown => "outcome_unknown",
            ToolRecoveryMode::NeverAutoRetry => "never_auto_retry",
        }
    }

    pub fn to_json(self) -> (r: Json)
        ensures
            r@ == self.json(),
    {
        Json::Text(self.as_str().to_owned())
    }

    /// The variant that `s` names on the wire.
    pub fn parse(s: &str) -> (r: Option<ToolRecoveryMode>)
        ensures
            r == ToolRecoveryMode::of_wire(s@),
    {
        if str_eq(s, "replay_safe") {
            Some(ToolRecoveryMode::ReplaySafe)
        } else if str_eq(s, "idempotent") {
            Some(ToolRecoveryMode::Idempotent)
        } else if str_eq(s, "reconcile") {
            Some(ToolRecoveryMode::Reconcile)
        } else if str_eq(s, "reattach") {
            Some(ToolRecoveryMode::Reattach)
        } else if str_eq(s, "outcome_unknown") {
            Some(ToolRecoveryMode::OutcomeUnknown)
        } else if str_eq(s, "never_auto_retry") {
            Some(ToolRecoveryMode::NeverAutoRetry)
        } else {
            None
        }
    }

    pub fn from_json(v: &Json) -> (r: Option<ToolRecoveryMode>)
        ensures
            r == ToolRecoveryMode::of_json(v@),
    {
        match read_variant(v) {
            Some(s) => ToolRecoveryMode::parse(s.as_str()),
            None => None,
        }
    }

    /// Every variant is read back from its wire name.
    pub proof fn lemma_wire(self)
        ensures
            ToolRecoveryMode::of_wire(self.wire()) == Some(self),
            ToolRecoveryMode::of_json(self.json()) == Some(self),
    {
        reveal_strlit("replay_safe");
        reveal_strlit("idempotent");
        reveal_strlit("reconcile");
        reveal_strlit("reattach");
        reveal_strlit("outcome_unknown");
        reveal_strlit("never_auto_retry");
        assert("replay_safe"@.len() == 11);
        assert("idempotent"@.len() == 10);
        assert("reconcile"@.len() == 9);
        assert("reattach"@.len() == 8);
        assert("outcome_unknown"@.len() == 15);
        assert("never_auto_retry"@.len() == 16);
    }
}

/// Durable tool-dispatch fact: the runtime crossed the boundary where a tool side
/// effect may have started. Presence does not assert completion.
#[derive(Debug, PartialEq)]
pub struct ToolDispatch {
    pub protocol: String,
    pub operation_id: String,
    pub provider_tool_call_id: String,
    pub tool_name: String,
    pub canonical_args_hash: String,
    pub recovery_mode: ToolRecoveryMode,
}

/// What a [`ToolDispatch`] says.
pub struct ToolDispatchView {
    pub protocol: Seq<char>,
    pub operation_id: Seq<char>,
    pub provider_tool_call_id: Seq<char>,
    pub tool_name: Seq<char>,
    pub canonical_args_hash: Seq<char>,
    pub recovery_mode: ToolRecoveryMode,
}

impl View for ToolDispatch {
    type V = ToolDispatchView;

    open spec fn view(&self) -> ToolDispatchView {
        ToolDispatchView {
            protocol: self.protocol@,
            operation_id: self.operation_id@,
            provider_tool_call_id: self.provider_tool_call_id@,
            tool_name: self.tool_name@,
            canonical_args_hash: self.canonical_args_hash@,
            recovery_mode: self.recovery_mode,
        }
    }
}

impl Clone for ToolDispatch {
    fn clone(&self) -> (r: Self)
        ensures
            r@ == self@,
    {
        ToolDispatch {
            protocol: self.protocol.clone(),
            operation_id: self.operation_id.clone(),
            provider_tool_call_id: self.provider_tool_call_id.clone(),
            tool_name: self.tool_name.clone(),
            canonical_args_hash: self.canonical_args_hash.clone(),
            recovery_mode: self.recovery_mode,
        }
    }
}

impl ToolDispatchView {
    /// The members of the JSON object, in key order.
    pub open spec fn fields(self) -> Seq<Field> {
        Seq::empty()
            .push(("canonicalArgsHash"@, Some(JsonView::Text(self.canonical_args_hash))))
            .push(("operationId"@, Some(JsonView::Text(self.operation_id))))
            .push(("protocol"@, Some(JsonView::Text(self.protocol))))
            .push(("providerToolCallId"@, Some(JsonView::Text(self.provider_tool_call_id))))
            .push(("recoveryMode"@, Some(self.recovery_mode.json())))
            .push(("toolName"@, Some(JsonView::Text(self.tool_name))))
    }

    pub open spec fn json(self) -> JsonView {
        JsonView::Object(present(self.fields()))
    }

    /// The members in the order of declaration.
    pub open spec fn order() -> Seq<Seq<char>> {
        seq!["protocol"@, "operationId"@, "providerToolCallId"@, "toolName"@, "canonicalArgsHash"@, "recoveryMode"@]
    }

    /// What the JSON value `v` says; `None` when it is neither such an object nor a list
    /// of its members.
    pub open spec fn of_json(v: JsonView) -> Option<ToolDispatchView> {
        ToolDispatchView::of_object(struct_form(v, ToolDispatchView::order(), 6))
    }

    /// What the JSON object `v` says; `None` when it is no such object.
    pub open spec fn of_object(v: JsonView) -> Option<ToolDispatchView> {
        let protocol = v.text_at("protocol"@);
        let operation_id = v.text_at("operationId"@);
        let provider_tool_call_id = v.text_at("providerToolCallId"@);
        let tool_name = v.text_at("toolName"@);
        let canonical_args_hash = v.text_at("canonicalArgsHash"@);
        let recovery_mode = member_at(v, "recoveryMode"@, |j: JsonView| ToolRecoveryMode::of_json(j));
        if v is Object && protocol is Some && operation_id is Some && provider_tool_call_id is Some && tool_name is Some && canonical_args_hash is Some && recovery_mode is Some {
            Some(
                ToolDispatchView {
                    protocol: protocol->0,
                    operation_id: operation_id->0,
                    provider_tool_call_id: provider_tool_call_id->0,
                    tool_name: tool_name->0,
                    canonical_args_hash: canonical_args_hash->0,
                    recovery_mode: recovery_mode->0,
                },
            )
        } else {
            None
        }
    }

    proof fn lemma_keys(self)
        ensures
            keys_ascend(self.fields()),
    {
        assert(text_lt("canonicalArgsHash"@, "operationId"@)) by {
            reveal_strlit("canonicalArgsHash");
            reveal_strlit("operationId");
            assert(lt_at("canonicalArgsHash"@, "operationId"@, 0));
        };
        assert(text_lt("operationId"@, "protocol"@)) by {
            reveal_strlit("operationId");
            reveal_strlit("protocol");
            assert(lt_at("operationId"@, "protocol"@, 0));
        };
        assert(text_lt("protocol"@, "providerToolCallId"@)) by {
            reveal_strlit("protocol");
            reveal_strlit("providerToolCallId");
            assert(lt_at("protocol"@, "providerToolCallId"@, 3));
        };
        assert(text_lt("providerToolCallId"@, "recoveryMode"@)) by {
            reveal_strlit("providerToolCallId");
            reveal_strlit("recoveryMode");
            assert(lt_at("providerToolCallId"@, "recoveryMode"@, 0));
        };
        assert(text_lt("recoveryMode"@, "toolName"@)) by {
            reveal_strlit("recoveryMode");
            reveal_strlit("toolName");
            assert(lt_at("recoveryMode"@, "toolName"@, 0));
        };
        lemma_step_ascends(self.fields());
    }

    /// Reading what was written gives the same value back.
    pub proof fn lemma_round_trip(self)
        ensures
            ToolDispatchView::of_json(self.json()) == Some(self),
            self.json().get("canonicalArgsHash"@) == (Some(JsonView::Text(self.canonical_args_hash))),
            self.json().get("operationId"@) == (Some(JsonView::Text(self.operation_id))),
            self.json().get("protocol"@) == (Some(JsonView::Text(self.protocol))),
            self.json().get("providerToolCallId"@) == (Some(JsonView::Text(self.provider_tool_call_id))),
            self.json().get("recoveryMode"@) == (Some(self.recovery_mode.json())),
            self.json().get("toolName"@) == (Some(JsonView::Text(self.tool_name))),
    {
        let f = self.fields();
        self.lemma_keys();
        assert(self.json().get("canonicalArgsHash"@) == Some(JsonView::Text(self.canonical_args_hash))) by {
            lemma_lookup(f, 0);
        };
        assert(self.json().get("operationId"@) == Some(JsonView::Text(self.operation_id))) by {
            lemma_lookup(f, 1);
        };
        assert(self.json().get("protocol"@) == Some(JsonView::Text(self.protocol))) by {
            lemma_lookup(f, 2);
        };
        assert(self.json().get("providerToolCallId"@) == Some(JsonView::Text(self.provider_tool_call_id))) by {
            lemma_lookup(f, 3);
        };
        assert(self.json().get("recoveryMode"@) == Some(self.recovery_mode.json())) by {
            lemma_lookup(f, 4);
        };
        assert(self.json().get("toolName"@) == Some(JsonView::Text(self.tool_name))) by {
            lemma_lookup(f, 5);
        };
        self.recovery_mode.lemma_wire();
    }

    /// The JSON object reads back from its text.
    pub proof fn lemma_sound(self, n: int)
        requires
            n >= 1,
        ensures
            sound(self.json(), n),
    {
        self.lemma_keys();
        lemma_sound_object(self.fields(), n);
    }
}

impl ToolDispatch {
    /// The JSON object for this value.
    pub fn to_json(&self) -> (r: Json)
        ensures
            r@ == self@.json(),
    {
        let mut b = ObjectBuilder::new();
        b.put_text("canonicalArgsHash", self.canonical_args_hash.as_str());
        b.put_text("operationId", self.operation_id.as_str());
        b.put_text("protocol", self.protocol.as_str());
        b.put_text("providerToolCallId", self.provider_tool_call_id.as_str());
        b.put("recoveryMode", self.recovery_mode.to_json());
        b.put_text("toolName", self.tool_name.as_str());
        assert(b.fields() == self@.fields());
        b.build()
    }

    /// Reads the value back from its JSON object, or from a list of its members in the
    /// order of declaration; unknown members are ignored.
    pub fn from_json(v: &Json) -> (r: Option<ToolDispatch>)
        ensures
            match r {
                Some(x) => ToolDispatchView::of_json(v@) == Some(x@),
                None => ToolDispatchView::of_json(v@) is None,
            },
    {
        let names: [&str; 6] = ["protocol", "operationId", "providerToolCallId", "toolName", "canonicalArgsHash", "recoveryMode"];
        assert(key_views(names@) =~= ToolDispatchView::order());
        match listed_members(v, &names, 6) {
            Some(o) => ToolDispatch::from_object(&o),
            None => ToolDispatch::from_object(v),
        }
    }

    fn from_object(v: &Json) -> (r: Option<ToolDispatch>)
        ensures
            match r {
                Some(x) => ToolDispatchView::of_object(v@) == Some(x@),
                None => ToolDispatchView::of_object(v@) is None,
            },
    {
        match v {
            Json::Object(_) => {},
            _ => return None,
        }
        let protocol = match v.text_at("protocol") {
            Some(x) => x,
            None => return None,
        };
        let operation_id = match v.text_at("operationId") {
            Some(x) => x,
            None => return None,
        };
        let provider_tool_call_id = match v.text_at("providerToolCallId") {
            Some(x) => x,
            None => return None,
        };
        let tool_name = match v.text_at("toolName") {
            Some(x) => x,
            None => return None,
        };
        let canonical_args_hash = match v.text_at("canonicalArgsHash") {
            Some(x) => x,
            None => return None,
        };
        let recovery_mode = match v.get("recoveryMode") {
            Some(j) => match ToolRecoveryMode::from_json(j) {
                Some(x) => x,
                None => return None,
            },
            None => return None,
        };
        Some(ToolDispatch { protocol, operation_id, provider_tool_call_id, tool_name, canonical_args_hash, recovery_mode })
    }
}

impl ToolDispatchView {
    /// The members of the JSON object in the order of declaration.
    pub open spec fn declared_fields(self) -> Seq<Field> {
        Seq::empty()
            .push(("protocol"@, Some(JsonView::Text(self.protocol))))
            .push(("operationId"@, Some(JsonView::Text(self.operation_id))))
            .push(("providerToolCallId"@, Some(JsonView::Text(self.provider_tool_call_id))))
            .push(("toolName"@, Some(JsonView::Text(self.tool_name))))
            .push(("canonicalArgsHash"@, Some(JsonView::Text(self.canonical_args_hash))))
            .push(("recoveryMode"@, Some(self.recovery_mode.json())))
    }

    pub open spec fn declared_json(self) -> JsonView {
        JsonView::Object(present(self.declared_fields()))
    }
}

impl ToolDispatch {
    /// The JSON object with its members in the order of declaration.
    pub fn to_declared_json(&self) -> (r: Json)
        ensures
            r@ == self@.declared_json(),
    {
        let mut b = ObjectBuilder::new();
        b.put_text("protocol", self.protocol.as_str());
        b.put_text("operationId", self.operation_id.as_str());
        b.put_text("providerToolCallId", self.provider_tool_call_id.as_str());
        b.put_text("toolName", self.tool_name.as_str());
        b.put_text("canonicalArgsHash", self.canonical_args_hash.as_str());
        b.put("recoveryMode", self.recovery_mode.to_json());
        assert(b.fields() == self@.declared_fields());
        b.build()
    }
}

/// Marker that the tool-boundary protocol was active from the run's start.
#[derive(Debug, PartialEq)]
pub struct ProtocolMarker {
    pub tool_boundary: String,
}

/// What a [`ProtocolMarker`] says.
pub struct ProtocolMarkerView {
    pub tool_boundary: Seq<char>,
}

impl View for ProtocolMarker {
    type V = ProtocolMarkerView;

    open spec fn view(&self) -> ProtocolMarkerView {
        ProtocolMarkerView {
            tool_boundary: self.tool_boundary@,
        }
    }
}

impl Clone for ProtocolMarker {
    fn clone(&self) -> (r: Self)
        ensures
            r@ == self@,
    {
        ProtocolMarker {
            tool_boundary: self.tool_boundary.clone(),
        }
    }
}

impl ProtocolMarkerView {
    /// The members of the JSON object, in key order.
    pub open spec fn fields(self) -> Seq<Field> {
        Seq::empty()
            .push(("toolBoundary"@, Some(JsonView::Text(self.tool_boundary))))
    }

    pub open spec fn json(self) -> JsonView {
        JsonView::Object(present(self.fields()))
    }

    /// The members in the order of declaration.
    pub open spec fn order() -> Seq<Seq<char>> {
        seq!["toolBoundary"@]
    }

    /// What the JSON value `v` says; `None` when it is neither such an object nor a list
    /// of its members.
    pub open spec fn of_json(v: JsonView) -> Option<ProtocolMarkerView> {
        ProtocolMarkerView::of_object(struct_form(v, ProtocolMarkerView::order(), 1))
    }

    /// What the JSON object `v` says; `None` when it is no such object.
    pub open spec fn of_object(v: JsonView) -> Option<ProtocolMarkerView> {
        let tool_boundary = v.text_at("toolBoundary"@);
        if v is Object && tool_boundary is Some {
            Some(
                ProtocolMarkerView {
                    tool_boundary: tool_boundary->0,
                },
            )
        } else {
            None
        }
    }

    proof fn lemma_keys(self)
        ensures
            keys_ascend(self.fields()),
    {
        lemma_step_ascends(self.fields());
    }

    /// Reading what was written gives the same value back.
    pub proof fn lemma_round_trip(self)
        ensures
            ProtocolMarkerView::of_json(self.json()) == Some(self),
            self.json().get("toolBoundary"@) == (Some(JsonView::Text(self.tool_boundary))),
    {
        let f = self.fields();
        self.lemma_keys();
        assert(self.json().get("toolBoundary"@) == Some(JsonView::Text(self.tool_boundary))) by {
            lemma_lookup(f, 0);
        };
    }

    /// The JSON object reads back from its text.
    pub proof fn lemma_sound(self, n: int)
        requires
            n >= 1,
        ensures
            sound(self.json(), n),
    {
        self.lemma_keys();
        lemma_sound_object(self.fields(), n);
    }
}

impl ProtocolMarker {
    /// The JSON object for this value.
    pub fn to_json(&self) -> (r: Json)
        ensures
            r@ == self@.json(),
    {
        let mut b = ObjectBuilder::new();
        b.put_text("toolBoundary", self.tool_boundary.as_str());
        assert(b.fields() == self@.fields());
        b.build()
    }

    /// Reads the value back from its JSON object, or from a list of its members in the
    /// order of declaration; unknown members are ignored.
    pub fn from_json(v: &Json) -> (r: Option<ProtocolMarker>)
        ensures
            match r {
                Some(x) => ProtocolMarkerView::of_json(v@) == Some(x@),
                None => ProtocolMarkerView::of_json(v@) is None,
            },
    {
        let names: [&str; 1] = ["toolBoundary"];
        assert(key_views(names@) =~= ProtocolMarkerView::order());
        match listed_members(v, &names, 1) {
            Some(o) => ProtocolMarker::from_object(&o),
            None => ProtocolMarker::from_object(v),
        }
    }

    fn from_object(v: &Json) -> (r: Option<ProtocolMarker>)
        ensures
            match r {
                Some(x) => ProtocolMarkerView::of_object(v@) == Some(x@),
                None => ProtocolMarkerView::of_object(v@) is None,
            },
    {
        match v {
            Json::Object(_) => {},
            _ => return None,
        }
        let tool_boundary = match v.text_at("toolBoundary") {
            Some(x) => x,
            None => return None,
        };
        Some(ProtocolMarker { tool_boundary })
    }
}

impl ProtocolMarkerView {
    /// The members of the JSON object in the order of declaration.
    pub open spec fn declared_fields(self) -> Seq<Field> {
        Seq::empty()
            .push(("toolBoundary"@, Some(JsonView::Text(self.tool_boundary))))
    }

    pub open spec fn declared_json(self) -> JsonView {
        JsonView::Object(present(self.declared_fields()))
    }
}

impl ProtocolMarker {
    /// The JSON object with its members in the order of declaration.
    pub fn to_declared_json(&self) -> (r: Json)
        ensures
            r@ == self@.declared_json(),
    {
        let mut b = ObjectBuilder::new();
        b.put_text("toolBoundary", self.tool_boundary.as_str());
        assert(b.fields() == self@.declared_fields());
        b.build()
    }
}

/// Permission decision attached to an event for audit.
#[derive(Debug, PartialEq)]
pub struct PermissionDecisionAction {
    pub request_id: String,
    pub decision: PermissionDecision,
    pub remember_for_turn: Option<bool>,
    pub tool_name: Option<String>,
}

/// What a [`PermissionDecisionAction`] says.
pub struct PermissionDecisionActionView {
    pub request_id: Seq<char>,
    pub decision: PermissionDecision,
    pub remember_for_turn: Option<bool>,
    pub tool_name: Option<Seq<char>>,
}

impl View for PermissionDecisionAction {
    type V = PermissionDecisionActionView;

    open spec fn view(&self) -> PermissionDecisionActionView {
        PermissionDecisionActionView {
            request_id: self.request_id@,
            decision: self.decision,
            remember_for_turn: self.remember_for_turn,
            tool_name: opt(self.tool_name),
        }
    }
}

impl Clone for PermissionDecisionAction {
    fn clone(&self) -> (r: Self)
        ensures
            r@ == self@,
    {
        PermissionDecisionAction {
            request_id: self.request_id.clone(),
            decision: self.decision,
            remember_for_turn: self.remember_for_turn,
            tool_name: clone_opt_text(&self.tool_name),
        }
    }
}

impl PermissionDecisionActionView {
    /// The members of the JSON object, in key order.
    pub open spec fn fields(self) -> Seq<Field> {
        Seq::empty()
            .push(("decision"@, Some(self.decision.json())))
            .push(("rememberForTurn"@, opt_bool_json(self.remember_for_turn)))
            .push(("requestId"@, Some(JsonView::Text(self.request_id))))
            .push(("toolName"@, opt_text_json(self.tool_name)))
    }

    pub open spec fn json(self) -> JsonView {
        JsonView::Object(present(self.fields()))
    }

    /// The members in the order of declaration.
    pub open spec fn order() -> Seq<Seq<char>> {
        seq!["requestId"@, "decision"@, "rememberForTurn"@, "toolName"@]
    }

    /// What the JSON value `v` says; `None` when it is neither such an object nor a list
    /// of its members.
    pub open spec fn of_json(v: JsonView) -> Option<PermissionDecisionActionView> {
        PermissionDecisionActionView::of_object(struct_form(v, PermissionDecisionActionView::order(), 2))
    }

    /// What the JSON object `v` says; `None` when it is no such object.
    pub open spec fn of_object(v: JsonView) -> Option<PermissionDecisionActionView> {
        let request_id = v.text_at("requestId"@);
        let decision = member_at(v, "decision"@, |j: JsonView| PermissionDecision::of_json(j));
        let remember_for_turn = opt_bool_at(v, "rememberForTurn"@);
        let tool_name = opt_text_at(v, "toolName"@);
        if v is Object && request_id is Some && decision is Some && remember_for_turn is Some && tool_name is Some {
            Some(
                PermissionDecisionActionView {
                    request_id: request_id->0,
                    decision: decision->0,
                    remember_for_turn: remember_for_turn->0,
                    tool_name: tool_name->0,
                },
            )
        } else {
            None
        }
    }

    proof fn lemma_keys(self)
        ensures
            keys_ascend(self.fields()),
    {
        assert(text_lt("decision"@, "rememberForTurn"@)) by {
            reveal_strlit("decision");
            reveal_strlit("rememberForTurn");
            assert(lt_at("decision"@, "rememberForTurn"@, 0));
        };
        assert(text_lt("rememberForTurn"@, "requestId"@)) by {
            reveal_strlit("rememberForTurn");
            reveal_strlit("requestId");
            assert(lt_at("rememberForTurn"@, "requestId"@, 2));
        };
        assert(text_lt("requestId"@, "toolName"@)) by {
            reveal_strlit("requestId");
            reveal_strlit("toolName");
            assert(lt_at("requestId"@, "toolName"@, 0));
        };
        lemma_step_ascends(self.fields());
    }

    /// Reading what was written gives the same value back.
    pub proof fn lemma_round_trip(self)
        ensures
            PermissionDecisionActionView::of_json(self.json()) == Some(self),
            self.json().get("decision"@) == (Some(self.decision.json())),
            self.json().get("rememberForTurn"@) == (opt_bool_json(self.remember_for_turn)),
            self.json().get("requestId"@) == (Some(JsonView::Text(self.request_id))),
            self.json().get("toolName"@) == (opt_text_json(self.tool_name)),
    {
        let f = self.fields();
        self.lemma_keys();
        assert(self.json().get("decision"@) == Some(self.decision.json())) by {
            lemma_lookup(f, 0);
        };
        assert(self.json().get("rememberForTurn"@) == opt_bool_json(self.remember_for_turn)) by {
            lemma_lookup(f, 1);
        };
        assert(self.json().get("requestId"@) == Some(JsonView::Text(self.request_id))) by {
            lemma_lookup(f, 2);
        };
        assert(self.json().get("toolName"@) == opt_text_json(self.tool_name)) by {
            lemma_lookup(f, 3);
        };
        self.decision.lemma_wire();
    }

    /// The JSON object reads back from its text.
    pub proof fn lemma_sound(self, n: int)
        requires
            n >= 1,
        ensures
            sound(self.json(), n),
    {
        self.lemma_keys();
        lemma_sound_object(self.fields(), n);
    }
}

impl PermissionDecisionAction {
    /// The JSON object for this value.
    pub fn to_json(&self) -> (r: Json)
        ensures
            r@ == self@.json(),
    {
        let mut b = ObjectBuilder::new();
        b.put("decision", self.decision.to_json());
        b.put_opt("rememberForTurn", from_opt_bool(self.remember_for_turn));
        b.put_text("requestId", self.request_id.as_str());
        b.put_opt("toolName", from_opt_text(&self.tool_name));
        assert(b.fields() == self@.fields());
        b.build()
    }

    /// Reads the value back from its JSON object, or from a list of its members in the
    /// order of declaration; unknown members are ignored.
    pub fn from_json(v: &Json) -> (r: Option<PermissionDecisionAction>)
        ensures
            match r {
                Some(x) => PermissionDecisionActionView::of_json(v@) == Some(x@),
                None => PermissionDecisionActionView::of_json(v@) is None,
            },
    {
        let names: [&str; 4] = ["requestId", "decision", "rememberForTurn", "toolName"];
        assert(key_views(names@) =~= PermissionDecisionActionView::order());
        match listed_members(v, &names, 2) {
            Some(o) => PermissionDecisionAction::from_object(&o),
            None => PermissionDecisionAction::from_object(v),
        }
    }

    fn from_object(v: &Json) -> (r: Option<PermissionDecisionAction>)
        ensures
            match r {
                Some(x) => PermissionDecisionActionView::of_object(v@) == Some(x@),
                None => PermissionDecisionActionView::of_object(v@) is None,
            },
    {
        match v {
            Json::Object(_) => {},
            _ => return None,
        }
        let request_id = match v.text_at("requestId") {
            Some(x) => x,
            None => return None,
        };
        let decision = match v.get("decision") {
            Some(j) => match PermissionDecision::from_json(j) {
                Some(x) => x,
                None => return None,
            },
            None => return None,
        };
        let remember_for_turn = match read_opt_bool(v, "rememberForTurn") {
            Some(x) => x,
            None => return None,
        };
        let tool_name = match read_opt_text(v, "toolName") {
            Some(x) => x,
            None => return None,
        };
        Some(PermissionDecisionAction { request_id, decision, remember_for_turn, tool_name })
    }
}

impl PermissionDecisionActionView {
    /// The members of the JSON object in the order of declaration.
    pub open spec fn declared_fields(self) -> Seq<Field> {
        Seq::empty()
            .push(("requestId"@, Some(JsonView::Text(self.request_id))))
            .push(("decision"@, Some(self.decision.json())))
            .push(("rememberForTurn"@, opt_bool_json(self.remember_for_turn)))
            .push(("toolName"@, opt_text_json(self.tool_name)))
    }

    pub open spec fn declared_json(self) -> JsonView {
        JsonView::Object(present(self.declared_fields()))
    }
}

impl PermissionDecisionAction {
    /// The JSON object with its members in the order of declaration.
    pub fn to_declared_json(&self) -> (r: Json)
        ensures
            r@ == self@.declared_json(),
    {
        let mut b = ObjectBuilder::new();
        b.put_text("requestId", self.request_id.as_str());
        b.put("decision", self.decision.to_json());
        b.put_opt("rememberForTurn", from_opt_bool(self.remember_for_turn));
        b.put_opt("toolName", from_opt_text(&self.tool_name));
        assert(b.fields() == self@.declared_fields());
        b.build()
    }
}

/// Control and side-effect intent carried alongside content.
#[derive(Debug, PartialEq)]
pub struct RuntimeEventActions {
    pub state_delta: Option<Json>,
    pub artifact_delta: Option<Json>,
    pub permission_request: Option<Json>,
    pub permission_decision: Option<PermissionDecisionAction>,
    pub permission_answer_accepted: Option<Json>,
    pub permission_closure_accepted: Option<Json>,
    pub user_question_request: Option<Json>,
    pub user_question_answer_accepted: Option<Json>,
    pub transfer_to_agent: Option<String>,
    /// Marks the event that closes the invocation.
    pub end_invocation: Option<bool>,
    pub token_usage: Option<Json>,
    /// Durable, non-model-visible tool-dispatch fact.
    pub tool_dispatch: Option<ToolDispatch>,
    /// Durable recovery fact about an earlier operation.
    pub tool_recovery: Option<ToolRecoveryFactEnvelope>,
    /// Protocols active from the first event of this run.
    pub runtime_protocol: Option<ProtocolMarker>,
    pub continuation_start: Option<Json>,
    pub workspace_fact: Option<Json>,
}

/// What a [`RuntimeEventActions`] says.
pub struct RuntimeEventActionsView {
    pub state_delta: Option<JsonView>,
    pub artifact_delta: Option<JsonView>,
    pub permission_request: Option<JsonView>,
    pub permission_decision: Option<PermissionDecisionActionView>,
    pub permission_answer_accepted: Option<JsonView>,
    pub permission_closure_accepted: Option<JsonView>,
    pub user_question_request: Option<JsonView>,
    pub user_question_answer_accepted: Option<JsonView>,
    pub transfer_to_agent: Option<Seq<char>>,
    pub end_invocation: Option<bool>,
    pub token_usage: Option<JsonView>,
    pub tool_dispatch: Option<ToolDispatchView>,
    pub tool_recovery: Option<ToolRecoveryFactEnvelopeView>,
    pub runtime_protocol: Option<ProtocolMarkerView>,
    pub continuation_start: Option<JsonView>,
    pub workspace_fact: Option<JsonView>,
}

impl View for RuntimeEventActions {
    type V = RuntimeEventActionsView;

    open spec fn view(&self) -> RuntimeEventActionsView {
        RuntimeEventActionsView {
            state_delta: opt(self.state_delta),
            artifact_delta: opt(self.artifact_delta),
            permission_request: opt(self.permission_request),
            permission_decision: opt(self.permission_decision),
            permission_answer_accepted: opt(self.permission_answer_accepted),
            permission_closure_accepted: opt(self.permission_closure_accepted),
            user_question_request: opt(self.user_question_request),
            user_question_answer_accepted: opt(self.user_question_answer_accepted),
            transfer_to_agent: opt(self.transfer_to_agent),
            end_invocation: self.end_invocation,
            token_usage: opt(self.token_usage),
            tool_dispatch: opt(self.tool_dispatch),
            tool_recovery: opt(self.tool_recovery),
            runtime_protocol: opt(self.runtime_protocol),
            continuation_start: opt(self.continuation_start),
            workspace_fact: opt(self.workspace_fact),
        }
    }
}

impl Clone for RuntimeEventActions {
    fn clone(&self) -> (r: Self)
        ensures
            r@ == self@,
    {
        RuntimeEventActions {
            state_delta: clone_opt_json(&self.state_delta),
            artifact_delta: clone_opt_json(&self.artifact_delta),
            permission_request: clone_opt_json(&self.permission_request),
            permission_decision: match &self.permission_decision {
                Some(x) => Some(x.clone()),
                None => None,
            },
            permission_answer_accepted: clone_opt_json(&self.permission_answer_accepted),
            permission_closure_accepted: clone_opt_json(&self.permission_closure_accepted),
            user_question_request: clone_opt_json(&self.user_question_request),
            user_question_answer_accepted: clone_opt_json(&self.user_question_answer_accepted),
            transfer_to_agent: clone_opt_text(&self.transfer_to_agent),
            end_invocation: self.end_invocation,
            token_usage: clone_opt_json(&self.token_usage),
            tool_dispatch: match &self.tool_dispatch {
                Some(x) => Some(x.clone()),
                None => None,
            },
            tool_recovery: match &self.tool_recovery {
                Some(x) => Some(x.clone()),
                None => None,
            },
            runtime_protocol: match &self.runtime_protocol {
                Some(x) => Some(x.clone()),
                None => None,
            },
            continuation_start: clone_opt_json(&self.continuation_start),
            workspace_fact: clone_opt_json(&self.workspace_fact),
        }
    }
}

impl Default for RuntimeEventActions {
    fn default() -> (r: Self)
        ensures
            r.state_delta is None,
            r.artifact_delta is None,
            r.permission_request is None,
            r.permission_decision is None,
            r.permission_answer_accepted is None,
            r.permission_closure_accepted is None,
            r.user_question_request is None,
            r.user_question_answer_accepted is None,
            r.transfer_to_agent is None,
            r.end_invocation is None,
            r.token_usage is None,
            r.tool_dispatch is None,
            r.tool_recovery is None,
            r.runtime_protocol is None,
            r.continuation_start is None,
            r.workspace_fact is None,
    {
        RuntimeEventActions {
            state_delta: None,
            artifact_delta: None,
            permission_request: None,
            permission_decision: None,
            permission_answer_accepted: None,
            permission_closure_accepted: None,
            user_question_request: None,
            user_question_answer_accepted: None,
            transfer_to_agent: None,
            end_invocation: None,
            token_usage: None,
            tool_dispatch: None,
            tool_recovery: None,
            runtime_protocol: None,
            continuation_start: None,
            workspace_fact: None,
        }
    }
}

impl RuntimeEventActionsView {
    /// The members of the JSON object, in key order.
    #[verifier::opaque]
    pub open spec fn fields(self) -> Seq<Field> {
        Seq::empty()
            .push(("artifactDelta"@, self.artifact_delta))
            .push(("continuationStart"@, self.continuation_start))
            .push(("endInvocation"@, opt_bool_json(self.end_invocation)))
            .push(("permissionAnswerAccepted"@, self.permission_answer_accepted))
            .push(("permissionClosureAccepted"@, self.permission_closure_accepted))
            .push(("permissionDecision"@, match self.permission_decision { Some(x) => Some(x.json()), None => None }))
            .push(("permissionRequest"@, self.permission_request))
            .push(("runtimeProtocol"@, match self.runtime_protocol { Some(x) => Some(x.json()), None => None }))
            .push(("stateDelta"@, self.state_delta))
            .push(("tokenUsage"@, self.token_usage))
            .push(("toolDispatch"@, match self.tool_dispatch { Some(x) => Some(x.json()), None => None }))
            .push(("toolRecovery"@, match self.tool_recovery { Some(x) => Some(x.json()), None => None }))
            .push(("transferToAgent"@, opt_text_json(self.transfer_to_agent)))
            .push(("userQuestionAnswerAccepted"@, self.user_question_answer_accepted))
            .push(("userQuestionRequest"@, self.user_question_request))
            .push(("workspaceFact"@, self.workspace_fact))
    }

    pub open spec fn json(self) -> JsonView {
        JsonView::Object(present(self.fields()))
    }

    /// No optional member is the JSON value `null`, which reads back as absent.
    pub open spec fn lossless(self) -> bool {
        &&& self.state_delta != Some(JsonView::Null)
        &&& self.artifact_delta != Some(JsonView::Null)
        &&& self.permission_request != Some(JsonView::Null)
        &&& self.permission_answer_accepted != Some(JsonView::Null)
        &&& self.permission_closure_accepted != Some(JsonView::Null)
        &&& self.user_question_request != Some(JsonView::Null)
        &&& self.user_question_answer_accepted != Some(JsonView::Null)
        &&& self.token_usage != Some(JsonView::Null)
        &&& self.continuation_start != Some(JsonView::Null)
        &&& self.workspace_fact != Some(JsonView::Null)
    }

    /// The members in the order of declaration.
    pub open spec fn order() -> Seq<Seq<char>> {
        seq!["stateDelta"@, "artifactDelta"@, "permissionRequest"@, "permissionDecision"@, "permissionAnswerAccepted"@, "permissionClosureAccepted"@, "userQuestionRequest"@, "userQuestionAnswerAccepted"@, "transferToAgent"@, "endInvocation"@, "tokenUsage"@, "toolDispatch"@, "toolRecovery"@, "runtimeProtocol"@, "continuationStart"@, "workspaceFact"@]
    }

    /// What the JSON value `v` says; `None` when it is neither such an object nor a list
    /// of its members.
    pub open spec fn of_json(v: JsonView) -> Option<RuntimeEventActionsView> {
        RuntimeEventActionsView::of_object(struct_form(v, RuntimeEventActionsView::order(), 0))
    }

    /// What the JSON object `v` says; `None` when it is no such object.
    pub open spec fn of_object(v: JsonView) -> Option<RuntimeEventActionsView> {
        let state_delta = Some(optional(v, "stateDelta"@));
        let artifact_delta = Some(optional(v, "artifactDelta"@));
        let permission_request = Some(optional(v, "permissionRequest"@));
        let permission_decision = opt_at(v, "permissionDecision"@, |j: JsonView| PermissionDecisionActionView::of_json(j));
        let permission_answer_accepted = Some(optional(v, "permissionAnswerAccepted"@));
        let permission_closure_accepted = Some(optional(v, "permissionClosureAccepted"@));
        let user_question_request = Some(optional(v, "userQuestionRequest"@));
        let user_question_answer_accepted = Some(optional(v, "userQuestionAnswerAccepted"@));
        let transfer_to_agent = opt_text_at(v, "transferToAgent"@);
        let end_invocation = opt_bool_at(v, "endInvocation"@);
        let token_usage = Some(optional(v, "tokenUsage"@));
        let tool_dispatch = opt_at(v, "toolDispatch"@, |j: JsonView| ToolDispatchView::of_json(j));
        let tool_recovery = opt_at(v, "toolRecovery"@, |j: JsonView| ToolRecoveryFactEnvelopeView::of_json(j));
        let runtime_protocol = opt_at(v, "runtimeProtocol"@, |j: JsonView| ProtocolMarkerView::of_json(j));
        let continuation_start = Some(optional(v, "continuationStart"@));
        let workspace_fact = Some(optional(v, "workspaceFact"@));
        if v is Object && permission_decision is Some && transfer_to_agent is Some && end_invocation is Some && tool_dispatch is Some && tool_recovery is Some && runtime_protocol is Some {
            Some(
                RuntimeEventActionsView {
                    state_delta: state_delta->0,
                    artifact_delta: artifact_delta->0,
                    permission_request: permission_request->0,
                    permission_decision: permission_decision->0,
                    permission_answer_accepted: permission_answer_accepted->0,
                    permission_closure_accepted: permission_closure_accepted->0,
                    user_question_request: user_question_request->0,
                    user_question_answer_accepted: user_question_answer_accepted->0,
                    transfer_to_agent: transfer_to_agent->0,
                    end_invocation: end_invocation->0,
                    token_usage: token_usage->0,
                    tool_dispatch: tool_dispatch->0,
                    tool_recovery: tool_recovery->0,
                    runtime_protocol: runtime_protocol->0,
                    continuation_start: continuation_start->0,
                    workspace_fact: workspace_fact->0,
                },
            )
        } else {
            None
        }
    }

    proof fn lemma_keys(self)
        ensures
            keys_ascend(self.fields()),
    {
        reveal(RuntimeEventActionsView::fields);
        assert(text_lt("artifactDelta"@, "continuationStart"@)) by {
            reveal_strlit("artifactDelta");
            reveal_strlit("continuationStart");
            assert(lt_at("artifactDelta"@, "continuationStart"@, 0));
        };
        assert(text_lt("continuationStart"@, "endInvocation"@)) by {
            reveal_strlit("continuationStart");
            reveal_strlit("endInvocation");
            assert(lt_at("continuationStart"@, "endInvocation"@, 0));
        };
        assert(text_lt("endInvocation"@, "permissionAnswerAccepted"@)) by {
            reveal_strlit("endInvocation");
            reveal_strlit("permissionAnswerAccepted");
            assert(lt_at("endInvocation"@, "permissionAnswerAccepted"@, 0));
        };
        assert(text_lt("permissionAnswerAccepted"@, "permissionClosureAccepted"@)) by {
            reveal_strlit("permissionAnswerAccepted");
            reveal_strlit("permissionClosureAccepted");
            assert(lt_at("permissionAnswerAccepted"@, "permissionClosureAccepted"@, 10));
        };
        assert(text_lt("permissionClosureAccepted"@, "permissionDecision"@)) by {
            reveal_strlit("permissionClosureAccepted");
            reveal_strlit("permissionDecision");
            assert(lt_at("permissionClosureAccepted"@, "permissionDecision"@, 10));
        };
        assert(text_lt("permissionDecision"@, "permissionRequest"@)) by {
            reveal_strlit("permissionDecision");
            reveal_strlit("permissionRequest");
            assert(lt_at("permissionDecision"@, "permissionRequest"@, 10));
        };
        assert(text_lt("permissionRequest"@, "runtimeProtocol"@)) by {
            reveal_strlit("permissionRequest");
            reveal_strlit("runtimeProtocol");
            assert(lt_at("permissionRequest"@, "runtimeProtocol"@, 0));
        };
        assert(text_lt("runtimeProtocol"@, "stateDelta"@)) by {
            reveal_strlit("runtimeProtocol");
            reveal_strlit("stateDelta");
            assert(lt_at("runtimeProtocol"@, "stateDelta"@, 0));
        };
        assert(text_lt("stateDelta"@, "tokenUsage"@)) by {
            reveal_strlit("stateDelta");
            reveal_strlit("tokenUsage");
            assert(lt_at("stateDelta"@, "tokenUsage"@, 0));
        };
        assert(text_lt("tokenUsage"@, "toolDispatch"@)) by {
            reveal_strlit("tokenUsage");
            reveal_strlit("toolDispatch");
            assert(lt_at("tokenUsage"@, "toolDispatch"@, 2));
        };
        assert(text_lt("toolDispatch"@, "toolRecovery"@)) by {
            reveal_strlit("toolDispatch");
            reveal_strlit("toolRecovery");
            assert(lt_at("toolDispatch"@, "toolRecovery"@, 4));
        };
        assert(text_lt("toolRecovery"@, "transferToAgent"@)) by {
            reveal_strlit("toolRecovery");
            reveal_strlit("transferToAgent");
            assert(lt_at("toolRecovery"@, "transferToAgent"@, 1));
        };
        assert(text_lt("transferToAgent"@, "userQuestionAnswerAccepted"@)) by {
            reveal_strlit("transferToAgent");
            reveal_strlit("userQuestionAnswerAccepted");
            assert(lt_at("transferToAgent"@, "userQuestionAnswerAccepted"@, 0));
        };
        assert(text_lt("userQuestionAnswerAccepted"@, "userQuestionRequest"@)) by {
            reveal_strlit("userQuestionAnswerAccepted");
            reveal_strlit("userQuestionRequest");
            assert(lt_at("userQuestionAnswerAccepted"@, "userQuestionRequest"@, 12));
        };
        assert(text_lt("userQuestionRequest"@, "workspaceFact"@)) by {
            reveal_strlit("userQuestionRequest");
            reveal_strlit("workspaceFact");
            assert(lt_at("userQuestionRequest"@, "workspaceFact"@, 0));
        };
        lemma_step_ascends(self.fields());
    }

    proof fn lemma_members(self)
        ensures
            self.json().get("artifactDelta"@) == self.artifact_delta,
            self.json().get("continuationStart"@) == self.continuation_start,
            self.json().get("endInvocation"@) == opt_bool_json(self.end_invocation),
            self.json().get("permissionAnswerAccepted"@) == self.permission_answer_accepted,
            self.json().get("permissionClosureAccepted"@) == self.permission_closure_accepted,
            self.json().get("permissionDecision"@) == match self.permission_decision { Some(x) => Some(x.json()), None => None },
            self.json().get("permissionRequest"@) == self.permission_request,
            self.json().get("runtimeProtocol"@) == match self.runtime_protocol { Some(x) => Some(x.json()), None => None },
            self.json().get("stateDelta"@) == self.state_delta,
            self.json().get("tokenUsage"@) == self.token_usage,
            self.json().get("toolDispatch"@) == match self.tool_dispatch { Some(x) => Some(x.json()), None => None },
            self.json().get("toolRecovery"@) == match self.tool_recovery { Some(x) => Some(x.json()), None => None },
            self.json().get("transferToAgent"@) == opt_text_json(self.transfer_to_agent),
            self.json().get("userQuestionAnswerAccepted"@) == self.user_question_answer_accepted,
            self.json().get("userQuestionRequest"@) == self.user_question_request,
            self.json().get("workspaceFact"@) == self.workspace_fact,
            self.json() is Object,
    {
        reveal(RuntimeEventActionsView::fields);
        let f = self.fields();
        self.lemma_keys();
        assert(self.json().get("artifactDelta"@) == self.artifact_delta) by {
            lemma_lookup(f, 0);
        };
        assert(self.json().get("continuationStart"@) == self.continuation_start) by {
            lemma_lookup(f, 1);
        };
        assert(self.json().get("endInvocation"@) == opt_bool_json(self.end_invocation)) by {
            lemma_lookup(f, 2);
        };
        assert(self.json().get("permissionAnswerAccepted"@) == self.permission_answer_accepted) by {
            lemma_lookup(f, 3);
        };
        assert(self.json().get("permissionClosureAccepted"@) == self.permission_closure_accepted) by {
            lemma_lookup(f, 4);
        };
        assert(self.json().get("permissionDecision"@) == match self.permission_decision { Some(x) => Some(x.json()), None => None }) by {
            lemma_lookup(f, 5);
        };
        assert(self.json().get("permissionRequest"@) == self.permission_request) by {
            lemma_lookup(f, 6);
        };
        assert(self.json().get("runtimeProtocol"@) == match self.runtime_protocol { Some(x) => Some(x.json()), None => None }) by {
            lemma_lookup(f, 7);
        };
        assert(self.json().get("stateDelta"@) == self.state_delta) by {
            lemma_lookup(f, 8);
        };
        assert(self.json().get("tokenUsage"@) == self.token_usage) by {
            lemma_lookup(f, 9);
        };
        assert(self.json().get("toolDispatch"@) == match self.tool_dispatch { Some(x) => Some(x.json()), None => None }) by {
            lemma_lookup(f, 10);
        };
        assert(self.json().get("toolRecovery"@) == match self.tool_recovery { Some(x) => Some(x.json()), None => None }) by {
            lemma_lookup(f, 11);
        };
        assert(self.json().get("transferToAgent"@) == opt_text_json(self.transfer_to_agent)) by {
            lemma_lookup(f, 12);
        };
        assert(self.json().get("userQuestionAnswerAccepted"@) == self.user_question_answer_accepted) by {
            lemma_lookup(f, 13);
        };
        assert(self.json().get("userQuestionRequest"@) == self.user_question_request) by {
            lemma_lookup(f, 14);
        };
        assert(self.json().get("workspaceFact"@) == self.workspace_fact) by {
            lemma_lookup(f, 15);
        };
    }

    /// Reading what was written gives the same value back.
    #[verifier::rlimit(60)]
    pub proof fn lemma_round_trip(self)
        requires
            self.lossless(),
        ensures
            RuntimeEventActionsView::of_json(self.json()) == Some(self),
    {
        self.lemma_members();
        if let Some(x) = self.permission_decision { x.lemma_round_trip(); }
        if let Some(x) = self.tool_dispatch { x.lemma_round_trip(); }
        if let Some(x) = self.tool_recovery { x.lemma_round_trip(); }
        if let Some(x) = self.runtime_protocol { x.lemma_round_trip(); }
    }

    /// Every embedded JSON value fits an object nested `n` levels deep.
    pub open spec fn embeds_sound(self, n: int) -> bool {
        &&& (self.state_delta matches Some(x) ==> sound(x, n - 1))
        &&& (self.artifact_delta matches Some(x) ==> sound(x, n - 1))
        &&& (self.permission_request matches Some(x) ==> sound(x, n - 1))
        &&& (self.permission_answer_accepted matches Some(x) ==> sound(x, n - 1))
        &&& (self.permission_closure_accepted matches Some(x) ==> sound(x, n - 1))
        &&& (self.user_question_request matches Some(x) ==> sound(x, n - 1))
        &&& (self.user_question_answer_accepted matches Some(x) ==> sound(x, n - 1))
        &&& (self.token_usage matches Some(x) ==> sound(x, n - 1))
        &&& (self.continuation_start matches Some(x) ==> sound(x, n - 1))
        &&& (self.workspace_fact matches Some(x) ==> sound(x, n - 1))
    }

    /// The JSON object reads back from its text.
    pub proof fn lemma_sound(self, n: int)
        requires
            n >= 4,
            self.embeds_sound(n),
        ensures
            sound(self.json(), n),
    {
        self.lemma_keys();
        reveal(RuntimeEventActionsView::fields);
        if let Some(x) = self.permission_decision { x.lemma_sound(n - 1); }
        if let Some(x) = self.tool_dispatch { x.lemma_sound(n - 1); }
        if let Some(x) = self.tool_recovery { x.lemma_sound(n - 1); }
        if let Some(x) = self.runtime_protocol { x.lemma_sound(n - 1); }
        lemma_sound_object(self.fields(), n);
    }
}

impl RuntimeEventActions {
    /// The JSON object for this value.
    pub fn to_json(&self) -> (r: Json)
        ensures
            r@ == self@.json(),
    {
        let mut b = ObjectBuilder::new();
        b.put_opt("artifactDelta", clone_opt_json(&self.artifact_delta));
        b.put_opt("continuationStart", clone_opt_json(&self.continuation_start));
        b.put_opt("endInvocation", from_opt_bool(self.end_invocation));
        b.put_opt("permissionAnswerAccepted", clone_opt_json(&self.permission_answer_accepted));
        b.put_opt("permissionClosureAccepted", clone_opt_json(&self.permission_closure_accepted));
        b.put_opt(
            "permissionDecision",
            match &self.permission_decision {
                Some(x) => Some(x.to_json()),
                None => None,
            },
        );
        b.put_opt("permissionRequest", clone_opt_json(&self.permission_request));
        b.put_opt(
            "runtimeProtocol",
            match &self.runtime_protocol {
                Some(x) => Some(x.to_json()),
                None => None,
            },
        );
        b.put_opt("stateDelta", clone_opt_json(&self.state_delta));
        b.put_opt("tokenUsage", clone_opt_json(&self.token_usage));
        b.put_opt(
            "toolDispatch",
            match &self.tool_dispatch {
                Some(x) => Some(x.to_json()),
                None => None,
            },
        );
        b.put_opt(
            "toolRecovery",
            match &self.tool_recovery {
                Some(x) => Some(x.to_json()),
                None => None,
            },
        );
        b.put_opt("transferToAgent", from_opt_text(&self.transfer_to_agent));
        b.put_opt("userQuestionAnswerAccepted", clone_opt_json(&self.user_question_answer_accepted));
        b.put_opt("userQuestionRequest", clone_opt_json(&self.user_question_request));
        b.put_opt("workspaceFact", clone_opt_json(&self.workspace_fact));
        reveal(RuntimeEventActionsView::fields);
        assert(b.fields() == self@.fields());
        b.build()
    }

    /// Reads the value back from its JSON object, or from a list of its members in the
    /// order of declaration; unknown members are ignored.
    pub fn from_json(v: &Json) -> (r: Option<RuntimeEventActions>)
        ensures
            match r {
                Some(x) => RuntimeEventActionsView::of_json(v@) == Some(x@),
                None => RuntimeEventActionsView::of_json(v@) is None,
            },
    {
        let names: [&str; 16] = ["stateDelta", "artifactDelta", "permissionRequest", "permissionDecision", "permissionAnswerAccepted", "permissionClosureAccepted", "userQuestionRequest", "userQuestionAnswerAccepted", "transferToAgent", "endInvocation", "tokenUsage", "toolDispatch", "toolRecovery", "runtimeProtocol", "continuationStart", "workspaceFact"];
        assert(key_views(names@) =~= RuntimeEventActionsView::order());
        match listed_members(v, &names, 0) {
            Some(o) => RuntimeEventActions::from_object(&o),
            None => RuntimeEventActions::from_object(v),
        }
    }

    fn from_object(v: &Json) -> (r: Option<RuntimeEventActions>)
        ensures
            match r {
                Some(x) => RuntimeEventActionsView::of_object(v@) == Some(x@),
                None => RuntimeEventActionsView::of_object(v@) is None,
            },
    {
        match v {
            Json::Object(_) => {},
            _ => return None,
        }
        let state_delta = read_opt_json(v, "stateDelta");
        let artifact_delta = read_opt_json(v, "artifactDelta");
        let permission_request = read_opt_json(v, "permissionRequest");
        let permission_decision = match read_optional(v, "permissionDecision") {
            Some(j) => match PermissionDecisionAction::from_json(j) {
                Some(x) => Some(x),
                None => return None,
            },
            None => None,
        };
        let permission_answer_accepted = read_opt_json(v, "permissionAnswerAccepted");
        let permission_closure_accepted = read_opt_json(v, "permissionClosureAccepted");
        let user_question_request = read_opt_json(v, "userQuestionRequest");
        let user_question_answer_accepted = read_opt_json(v, "userQuestionAnswerAccepted");
        let transfer_to_agent = match read_opt_text(v, "transferToAgent") {
            Some(x) => x,
            None => return None,
        };
        let end_invocation = match read_opt_bool(v, "endInvocation") {
            Some(x) => x,
            None => return None,
        };
        let token_usage = read_opt_json(v, "tokenUsage");
        let tool_dispatch = match read_optional(v, "toolDispatch") {
            Some(j) => match ToolDispatch::from_json(j) {
                Some(x) => Some(x),
                None => return None,
            },
            None => None,
        };
        let tool_recovery = match read_optional(v, "toolRecovery") {
            Some(j) => match ToolRecoveryFactEnvelope::from_json(j) {
                Some(x) => Some(x),
                None => return None,
            },
            None => None,
        };
        let runtime_protocol = match read_optional(v, "runtimeProtocol") {
            Some(j) => match ProtocolMarker::from_json(j) {
                Some(x) => Some(x),
                None => return None,
            },
            None => None,
        };
        let continuation_start = read_opt_json(v, "continuationStart");
        let workspace_fact = read_opt_json(v, "workspaceFact");
        Some(RuntimeEventActions { state_delta, artifact_delta, permission_request, permission_decision, permission_answer_accepted, permission_closure_accepted, user_question_request, user_question_answer_accepted, transfer_to_agent, end_invocation, token_usage, tool_dispatch, tool_recovery, runtime_protocol, continuation_start, workspace_fact })
    }
}

impl RuntimeEventActionsView {
    /// The members of the JSON object in the order of declaration.
    #[verifier::opaque]
    pub open spec fn declared_fields(self) -> Seq<Field> {
        Seq::empty()
            .push(("stateDelta"@, opt_tree(self.state_delta)))
            .push(("artifactDelta"@, opt_tree(self.artifact_delta)))
            .push(("permissionRequest"@, opt_tree(self.permission_request)))
            .push(("permissionDecision"@, match self.permission_decision { Some(x) => Some(x.declared_json()), None => None }))
            .push(("permissionAnswerAccepted"@, opt_tree(self.permission_answer_accepted)))
            .push(("permissionClosureAccepted"@, opt_tree(self.permission_closure_accepted)))
            .push(("userQuestionRequest"@, opt_tree(self.user_question_request)))
            .push(("userQuestionAnswerAccepted"@, opt_tree(self.user_question_answer_accepted)))
            .push(("transferToAgent"@, opt_text_json(self.transfer_to_agent)))
            .push(("endInvocation"@, opt_bool_json(self.end_invocation)))
            .push(("tokenUsage"@, opt_tree(self.token_usage)))
            .push(("toolDispatch"@, match self.tool_dispatch { Some(x) => Some(x.declared_json()), None => None }))
            .push(("toolRecovery"@, match self.tool_recovery { Some(x) => Some(x.declared_json()), None => None }))
            .push(("runtimeProtocol"@, match self.runtime_protocol { Some(x) => Some(x.declared_json()), None => None }))
            .push(("continuationStart"@, opt_tree(self.continuation_start)))
            .push(("workspaceFact"@, opt_tree(self.workspace_fact)))
    }

    pub open spec fn declared_json(self) -> JsonView {
        JsonView::Object(present(self.declared_fields()))
    }
}

impl RuntimeEventActions {
    /// The JSON object with its members in the order of declaration.
    pub fn to_declared_json(&self) -> (r: Json)
        ensures
            r@ == self@.declared_json(),
    {
        let mut b = ObjectBuilder::new();
        b.put_opt("stateDelta", opt_to_tree(&self.state_delta));
        b.put_opt("artifactDelta", opt_to_tree(&self.artifact_delta));
        b.put_opt("permissionRequest", opt_to_tree(&self.permission_request));
        b.put_opt(
            "permissionDecision",
            match &self.permission_decision {
                Some(x) => Some(x.to_declared_json()),
                None => None,
            },
        );
        b.put_opt("permissionAnswerAccepted", opt_to_tree(&self.permission_answer_accepted));
        b.put_opt("permissionClosureAccepted", opt_to_tree(&self.permission_closure_accepted));
        b.put_opt("userQuestionRequest", opt_to_tree(&self.user_question_request));
        b.put_opt("userQuestionAnswerAccepted", opt_to_tree(&self.user_question_answer_accepted));
        b.put_opt("transferToAgent", from_opt_text(&self.transfer_to_agent));
        b.put_opt("endInvocation", from_opt_bool(self.end_invocation));
        b.put_opt("tokenUsage", opt_to_tree(&self.token_usage));
        b.put_opt(
            "toolDispatch",
            match &self.tool_dispatch {
                Some(x) => Some(x.to_declared_json()),
                None => None,
            },
        );
        b.put_opt(
            "toolRecovery",
            match &self.tool_recovery {
                Some(x) => Some(x.to_declared_json()),
                None => None,
            },
        );
        b.put_opt(
            "runtimeProtocol",
            match &self.runtime_protocol {
                Some(x) => Some(x.to_declared_json()),
                None => None,
            },
        );
        b.put_opt("continuationStart", opt_to_tree(&self.continuation_start));
        b.put_opt("workspaceFact", opt_to_tree(&self.workspace_fact));
        reveal(RuntimeEventActionsView::declared_fields);
        assert(b.fields() == self@.declared_fields());
        b.build()
    }
}

/// Links back to projection and ledger rows. A missing ref never changes runtime
/// behavior.
#[derive(Debug, PartialEq)]
pub struct RuntimeEventRefs {
    pub stored_message_id: Option<String>,
    pub trace_event_id: Option<String>,
    pub tool_call_id: Option<String>,
    pub provider_event_id: Option<String>,
    pub source_message_digest: Option<String>,
    pub provider_request_trace_id: Option<String>,
    pub artifact_id: Option<String>,
    /// Durable identity of one tool side-effect boundary.
    pub operation_id: Option<String>,
    pub parent_tool_call_id: Option<String>,
    pub parent_operation_id: Option<String>,
    pub step_id: Option<String>,
    pub source_invocation_id: Option<String>,
    pub source_run_id: Option<String>,
    pub source_turn_id: Option<String>,
    pub source_runtime_event_high_water: Option<i64>,
}

/// What a [`RuntimeEventRefs`] says.
pub struct RuntimeEventRefsView {
    pub stored_message_id: Option<Seq<char>>,
    pub trace_event_id: Option<Seq<char>>,
    pub tool_call_id: Option<Seq<char>>,
    pub provider_event_id: Option<Seq<char>>,
    pub source_message_digest: Option<Seq<char>>,
    pub provider_request_trace_id: Option<Seq<char>>,
    pub artifact_id: Option<Seq<char>>,
    pub operation_id: Option<Seq<char>>,
    pub parent_tool_call_id: Option<Seq<char>>,
    pub parent_operation_id: Option<Seq<char>>,
    pub step_id: Option<Seq<char>>,
    pub source_invocation_id: Option<Seq<char>>,
    pub source_run_id: Option<Seq<char>>,
    pub source_turn_id: Option<Seq<char>>,
    pub source_runtime_event_high_water: Option<i64>,
}

impl View for RuntimeEventRefs {
    type V = RuntimeEventRefsView;

    open spec fn view(&self) -> RuntimeEventRefsView {
        RuntimeEventRefsView {
            stored_message_id: opt(self.stored_message_id),
            trace_event_id: opt(self.trace_event_id),
            tool_call_id: opt(self.tool_call_id),
            provider_event_id: opt(self.provider_event_id),
            source_message_digest: opt(self.source_message_digest),
            provider_request_trace_id: opt(self.provider_request_trace_id),
            artifact_id: opt(self.artifact_id),
            operation_id: opt(self.operation_id),
            parent_tool_call_id: opt(self.parent_tool_call_id),
            parent_operation_id: opt(self.parent_operation_id),
            step_id: opt(self.step_id),
            source_invocation_id: opt(self.source_invocation_id),
            source_run_id: opt(self.source_run_id),
            source_turn_id: opt(self.source_turn_id),
            source_runtime_event_high_water: self.source_runtime_event_high_water,
        }
    }
}

impl Clone for RuntimeEventRefs {
    fn clone(&self) -> (r: Self)
        ensures
            r@ == self@,
    {
        RuntimeEventRefs {
            stored_message_id: clone_opt_text(&self.stored_message_id),
            trace_event_id: clone_opt_text(&self.trace_event_id),
            tool_call_id: clone_opt_text(&self.tool_call_id),
            provider_event_id: clone_opt_text(&self.provider_event_id),
            source_message_digest: clone_opt_text(&self.source_message_digest),
            provider_request_trace_id: clone_opt_text(&self.provider_request_trace_id),
            artifact_id: clone_opt_text(&self.artifact_id),
            operation_id: clone_opt_text(&self.operation_id),
            parent_tool_call_id: clone_opt_text(&self.parent_tool_call_id),
            parent_operation_id: clone_opt_text(&self.parent_operation_id),
            step_id: clone_opt_text(&self.step_id),
            source_invocation_id: clone_opt_text(&self.source_invocation_id),
            source_run_id: clone_opt_text(&self.source_run_id),
            source_turn_id: clone_opt_text(&self.source_turn_id),
            source_runtime_event_high_water: self.source_runtime_event_high_water,
        }
    }
}

impl Default for RuntimeEventRefs {
    fn default() -> (r: Self)
        ensures
            r.stored_message_id is None,
            r.trace_event_id is None,
            r.tool_call_id is None,
            r.provider_event_id is None,
            r.source_message_digest is None,
            r.provider_request_trace_id is None,
            r.artifact_id is None,
            r.operation_id is None,
            r.parent_tool_call_id is None,
            r.parent_operation_id is None,
            r.step_id is None,
            r.source_invocation_id is None,
            r.source_run_id is None,
            r.source_turn_id is None,
            r.source_runtime_event_high_water is None,
    {
        RuntimeEventRefs {
            stored_message_id: None,
            trace_event_id: None,
            tool_call_id: None,
            provider_event_id: None,
            source_message_digest: None,
            provider_request_trace_id: None,
            artifact_id: None,
            operation_id: None,
            parent_tool_call_id: None,
            parent_operation_id: None,
            step_id: None,
            source_invocation_id: None,
            source_run_id: None,
            source_turn_id: None,
            source_runtime_event_high_water: None,
        }
    }
}

impl RuntimeEventRefsView {
    /// The members of the JSON object, in key order.
    #[verifier::opaque]
    pub open spec fn fields(self) -> Seq<Field> {
        Seq::empty()
            .push(("artifactId"@, opt_text_json(self.artifact_id)))
            .push(("operationId"@, opt_text_json(self.operation_id)))
            .push(("parentOperationId"@, opt_text_json(self.parent_operation_id)))
            .push(("parentToolCallId"@, opt_text_json(self.parent_tool_call_id)))
            .push(("providerEventId"@, opt_text_json(self.provider_event_id)))
            .push(("providerRequestTraceId"@, opt_text_json(self.provider_request_trace_id)))
            .push(("sourceInvocationId"@, opt_text_json(self.source_invocation_id)))
            .push(("sourceMessageDigest"@, opt_text_json(self.source_message_digest)))
            .push(("sourceRunId"@, opt_text_json(self.source_run_id)))
            .push(("sourceRuntimeEventHighWater"@, opt_i64_json(self.source_runtime_event_high_water)))
            .push(("sourceTurnId"@, opt_text_json(self.source_turn_id)))
            .push(("stepId"@, opt_text_json(self.step_id)))
            .push(("storedMessageId"@, opt_text_json(self.stored_message_id)))
            .push(("toolCallId"@, opt_text_json(self.tool_call_id)))
            .push(("traceEventId"@, opt_text_json(self.trace_event_id)))
    }

    pub open spec fn json(self) -> JsonView {
        JsonView::Object(present(self.fields()))
    }

    /// The members in the order of declaration.
    pub open spec fn order() -> Seq<Seq<char>> {
        seq!["storedMessageId"@, "traceEventId"@, "toolCallId"@, "providerEventId"@, "sourceMessageDigest"@, "providerRequestTraceId"@, "artifactId"@, "operationId"@, "parentToolCallId"@, "parentOperationId"@, "stepId"@, "sourceInvocationId"@, "sourceRunId"@, "sourceTurnId"@, "sourceRuntimeEventHighWater"@]
    }

    /// What the JSON value `v` says; `None` when it is neither such an object nor a list
    /// of its members.
    pub open spec fn of_json(v: JsonView) -> Option<RuntimeEventRefsView> {
        RuntimeEventRefsView::of_object(struct_form(v, RuntimeEventRefsView::order(), 0))
    }

    /// What the JSON object `v` says; `None` when it is no such object.
    pub open spec fn of_object(v: JsonView) -> Option<RuntimeEventRefsView> {
        let stored_message_id = opt_text_at(v, "storedMessageId"@);
        let trace_event_id = opt_text_at(v, "traceEventId"@);
        let tool_call_id = opt_text_at(v, "toolCallId"@);
        let provider_event_id = opt_text_at(v, "providerEventId"@);
        let source_message_digest = opt_text_at(v, "sourceMessageDigest"@);
        let provider_request_trace_id = opt_text_at(v, "providerRequestTraceId"@);
        let artifact_id = opt_text_at(v, "artifactId"@);
        let operation_id = opt_text_at(v, "operationId"@);
        let parent_tool_call_id = opt_text_at(v, "parentToolCallId"@);
        let parent_operation_id = opt_text_at(v, "parentOperationId"@);
        let step_id = opt_text_at(v, "stepId"@);
        let source_invocation_id = opt_text_at(v, "sourceInvocationId"@);
        let source_run_id = opt_text_at(v, "sourceRunId"@);
        let source_turn_id = opt_text_at(v, "sourceTurnId"@);
        let source_runtime_event_high_water = opt_i64_at(v, "sourceRuntimeEventHighWater"@);
        if v is Object && stored_message_id is Some && trace_event_id is Some && tool_call_id is Some && provider_event_id is Some && source_message_digest is Some && provider_request_trace_id is Some && artifact_id is Some && operation_id is Some && parent_tool_call_id is Some && parent_operation_id is Some && step_id is Some && source_invocation_id is Some && source_run_id is Some && source_turn_id is Some && source_runtime_event_high_water is Some {
            Some(
                RuntimeEventRefsView {
                    stored_message_id: stored_message_id->0,
                    trace_event_id: trace_event_id->0,
                    tool_call_id: tool_call_id->0,
                    provider_event_id: provider_event_id->0,
                    source_message_digest: source_message_digest->0,
                    provider_request_trace_id: provider_request_trace_id->0,
                    artifact_id: artifact_id->0,
                    operation_id: operation_id->0,
                    parent_tool_call_id: parent_tool_call_id->0,
                    parent_operation_id: parent_operation_id->0,
                    step_id: step_id->0,
                    source_invocation_id: source_invocation_id->0,
                    source_run_id: source_run_id->0,
                    source_turn_id: source_turn_id->0,
                    source_runtime_event_high_water: source_runtime_event_high_water->0,
                },
            )
        } else {
            None
        }
    }

    proof fn lemma_keys(self)
        ensures
            keys_ascend(self.fields()),
    {
        reveal(RuntimeEventRefsView::fields);
        assert(text_lt("artifactId"@, "operationId"@)) by {
            reveal_strlit("artifactId");
            reveal_strlit("operationId");
            assert(lt_at("artifactId"@, "operationId"@, 0));
        };
        assert(text_lt("operationId"@, "parentOperationId"@)) by {
            reveal_strlit("operationId");
            reveal_strlit("parentOperationId");
            assert(lt_at("operationId"@, "parentOperationId"@, 0));
        };
        assert(text_lt("parentOperationId"@, "parentToolCallId"@)) by {
            reveal_strlit("parentOperationId");
            reveal_strlit("parentToolCallId");
            assert(lt_at("parentOperationId"@, "parentToolCallId"@, 6));
        };
        assert(text_lt("parentToolCallId"@, "providerEventId"@)) by {
            reveal_strlit("parentToolCallId");
            reveal_strlit("providerEventId");
            assert(lt_at("parentToolCallId"@, "providerEventId"@, 1));
        };
        assert(text_lt("providerEventId"@, "providerRequestTraceId"@)) by {
            reveal_strlit("providerEventId");
            reveal_strlit("providerRequestTraceId");
            assert(lt_at("providerEventId"@, "providerRequestTraceId"@, 8));
        };
        assert(text_lt("providerRequestTraceId"@, "sourceInvocationId"@)) by {
            reveal_strlit("providerRequestTraceId");
            reveal_strlit("sourceInvocationId");
            assert(lt_at("providerRequestTraceId"@, "sourceInvocationId"@, 0));
        };
        assert(text_lt("sourceInvocationId"@, "sourceMessageDigest"@)) by {
            reveal_strlit("sourceInvocationId");
            reveal_strlit("sourceMessageDigest");
            assert(lt_at("sourceInvocationId"@, "sourceMessageDigest"@, 6));
        };
        assert(text_lt("sourceMessageDigest"@, "sourceRunId"@)) by {
            reveal_strlit("sourceMessageDigest");
            reveal_strlit("sourceRunId");
            assert(lt_at("sourceMessageDigest"@, "sourceRunId"@, 6));
        };
        assert(text_lt("sourceRunId"@, "sourceRuntimeEventHighWater"@)) by {
            reveal_strlit("sourceRunId");
            reveal_strlit("sourceRuntimeEventHighWater");
            assert(lt_at("sourceRunId"@, "sourceRuntimeEventHighWater"@, 9));
        };
        assert(text_lt("sourceRuntimeEventHighWater"@, "sourceTurnId"@)) by {
            reveal_strlit("sourceRuntimeEventHighWater");
            reveal_strlit("sourceTurnId");
            assert(lt_at("sourceRuntimeEventHighWater"@, "sourceTurnId"@, 6));
        };
        assert(text_lt("sourceTurnId"@, "stepId"@)) by {
            reveal_strlit("sourceTurnId");
            reveal_strlit("stepId");
            assert(lt_at("sourceTurnId"@, "stepId"@, 1));
        };
        assert(text_lt("stepId"@, "storedMessageId"@)) by {
            reveal_strlit("stepId");
            reveal_strlit("storedMessageId");
            assert(lt_at("stepId"@, "storedMessageId"@, 2));
        };
        assert(text_lt("storedMessageId"@, "toolCallId"@)) by {
            reveal_strlit("storedMessageId");
            reveal_strlit("toolCallId");
            assert(lt_at("storedMessageId"@, "toolCallId"@, 0));
        };
        assert(text_lt("toolCallId"@, "traceEventId"@)) by {
            reveal_strlit("toolCallId");
            reveal_strlit("traceEventId");
            assert(lt_at("toolCallId"@, "traceEventId"@, 1));
        };
        lemma_step_ascends(self.fields());
    }

    proof fn lemma_members(self)
        ensures
            self.json().get("artifactId"@) == opt_text_json(self.artifact_id),
            self.json().get("operationId"@) == opt_text_json(self.operation_id),
            self.json().get("parentOperationId"@) == opt_text_json(self.parent_operation_id),
            self.json().get("parentToolCallId"@) == opt_text_json(self.parent_tool_call_id),
            self.json().get("providerEventId"@) == opt_text_json(self.provider_event_id),
            self.json().get("providerRequestTraceId"@) == opt_text_json(self.provider_request_trace_id),
            self.json().get("sourceInvocationId"@) == opt_text_json(self.source_invocation_id),
            self.json().get("sourceMessageDigest"@) == opt_text_json(self.source_message_digest),
            self.json().get("sourceRunId"@) == opt_text_json(self.source_run_id),
            self.json().get("sourceRuntimeEventHighWater"@) == opt_i64_json(self.source_runtime_event_high_water),
            self.json().get("sourceTurnId"@) == opt_text_json(self.source_turn_id),
            self.json().get("stepId"@) == opt_text_json(self.step_id),
            self.json().get("storedMessageId"@) == opt_text_json(self.stored_message_id),
            self.json().get("toolCallId"@) == opt_text_json(self.tool_call_id),
            self.json().get("traceEventId"@) == opt_text_json(self.trace_event_id),
            self.json() is Object,
    {
        reveal(RuntimeEventRefsView::fields);
        let f = self.fields();
        self.lemma_keys();
        assert(self.json().get("artifactId"@) == opt_text_json(self.artifact_id)) by {
            lemma_lookup(f, 0);
        };
        assert(self.json().get("operationId"@) == opt_text_json(self.operation_id)) by {
            lemma_lookup(f, 1);
        };
        assert(self.json().get("parentOperationId"@) == opt_text_json(self.parent_operation_id)) by {
            lemma_lookup(f, 2);
        };
        assert(self.json().get("parentToolCallId"@) == opt_text_json(self.parent_tool_call_id)) by {
            lemma_lookup(f, 3);
        };
        assert(self.json().get("providerEventId"@) == opt_text_json(self.provider_event_id)) by {
            lemma_lookup(f, 4);
        };
        assert(self.json().get("providerRequestTraceId"@) == opt_text_json(self.provider_request_trace_id)) by {
            lemma_lookup(f, 5);
        };
        assert(self.json().get("sourceInvocationId"@) == opt_text_json(self.source_invocation_id)) by {
            lemma_lookup(f, 6);
        };
        assert(self.json().get("sourceMessageDigest"@) == opt_text_json(self.source_message_digest)) by {
            lemma_lookup(f, 7);
        };
        assert(self.json().get("sourceRunId"@) == opt_text_json(self.source_run_id)) by {
            lemma_lookup(f, 8);
        };
        assert(self.json().get("sourceRuntimeEventHighWater"@) == opt_i64_json(self.source_runtime_event_high_water)) by {
            lemma_lookup(f, 9);
        };
        assert(self.json().get("sourceTurnId"@) == opt_text_json(self.source_turn_id)) by {
            lemma_lookup(f, 10);
        };
        assert(self.json().get("stepId"@) == opt_text_json(self.step_id)) by {
            lemma_lookup(f, 11);
        };
        assert(self.json().get("storedMessageId"@) == opt_text_json(self.stored_message_id)) by {
            lemma_lookup(f, 12);
        };
        assert(self.json().get("toolCallId"@) == opt_text_json(self.tool_call_id)) by {
            lemma_lookup(f, 13);
        };
        assert(self.json().get("traceEventId"@) == opt_text_json(self.trace_event_id)) by {
            lemma_lookup(f, 14);
        };
    }

    /// Reading what was written gives the same value back.
    #[verifier::rlimit(60)]
    pub proof fn lemma_round_trip(self)
        ensures
            RuntimeEventRefsView::of_json(self.json()) == Some(self),
    {
        self.lemma_members();
    }

    /// The JSON object reads back from its text.
    pub proof fn lemma_sound(self, n: int)
        requires
            n >= 1,
        ensures
            sound(self.json(), n),
    {
        self.lemma_keys();
        reveal(RuntimeEventRefsView::fields);
        lemma_sound_object(self.fields(), n);
    }
}

impl RuntimeEventRefs {
    /// The JSON object for this value.
    pub fn to_json(&self) -> (r: Json)
        ensures
            r@ == self@.json(),
    {
        let mut b = ObjectBuilder::new();
        b.put_opt("artifactId", from_opt_text(&self.artifact_id));
        b.put_opt("operationId", from_opt_text(&self.operation_id));
        b.put_opt("parentOperationId", from_opt_text(&self.parent_operation_id));
        b.put_opt("parentToolCallId", from_opt_text(&self.parent_tool_call_id));
        b.put_opt("providerEventId", from_opt_text(&self.provider_event_id));
        b.put_opt("providerRequestTraceId", from_opt_text(&self.provider_request_trace_id));
        b.put_opt("sourceInvocationId", from_opt_text(&self.source_invocation_id));
        b.put_opt("sourceMessageDigest", from_opt_text(&self.source_message_digest));
        b.put_opt("sourceRunId", from_opt_text(&self.source_run_id));
        b.put_opt("sourceRuntimeEventHighWater", from_opt_i64(self.source_runtime_event_high_water));
        b.put_opt("sourceTurnId", from_opt_text(&self.source_turn_id));
        b.put_opt("stepId", from_opt_text(&self.step_id));
        b.put_opt("storedMessageId", from_opt_text(&self.stored_message_id));
        b.put_opt("toolCallId", from_opt_text(&self.tool_call_id));
        b.put_opt("traceEventId", from_opt_text(&self.trace_event_id));
        reveal(RuntimeEventRefsView::fields);
        assert(b.fields() == self@.fields());
        b.build()
    }

    /// Reads the value back from its JSON object, or from a list of its members in the
    /// order of declaration; unknown members are ignored.
    pub fn from_json(v: &Json) -> (r: Option<RuntimeEventRefs>)
        ensures
            match r {
                Some(x) => RuntimeEventRefsView::of_json(v@) == Some(x@),
                None => RuntimeEventRefsView::of_json(v@) is None,
            },
    {
        let names: [&str; 15] = ["storedMessageId", "traceEventId", "toolCallId", "providerEventId", "sourceMessageDigest", "providerRequestTraceId", "artifactId", "operationId", "parentToolCallId", "parentOperationId", "stepId", "sourceInvocationId", "sourceRunId", "sourceTurnId", "sourceRuntimeEventHighWater"];
        assert(key_views(names@) =~= RuntimeEventRefsView::order());
        match listed_members(v, &names, 0) {
            Some(o) => RuntimeEventRefs::from_object(&o),
            None => RuntimeEventRefs::from_object(v),
        }
    }

    fn from_object(v: &Json) -> (r: Option<RuntimeEventRefs>)
        ensures
            match r {
                Some(x) => RuntimeEventRefsView::of_object(v@) == Some(x@),
                None => RuntimeEventRefsView::of_object(v@) is None,
            },
    {
        match v {
            Json::Object(_) => {},
            _ => return None,
        }
        let stored_message_id = match read_opt_text(v, "storedMessageId") {
            Some(x) => x,
            None => return None,
        };
        let trace_event_id = match read_opt_text(v, "traceEventId") {
            Some(x) => x,
            None => return None,
        };
        let tool_call_id = match read_opt_text(v, "toolCallId") {
            Some(x) => x,
            None => return None,
        };
        let provider_event_id = match read_opt_text(v, "providerEventId") {
            Some(x) => x,
            None => return None,
        };
        let source_message_digest = match read_opt_text(v, "sourceMessageDigest") {
            Some(x) => x,
            None => return None,
        };
        let provider_request_trace_id = match read_opt_text(v, "providerRequestTraceId") {
            Some(x) => x,
            None => return None,
        };
        let artifact_id = match read_opt_text(v, "artifactId") {
            Some(x) => x,
            None => return None,
        };
        let operation_id = match read_opt_text(v, "operationId") {
            Some(x) => x,
            None => return None,
        };
        let parent_tool_call_id = match read_opt_text(v, "parentToolCallId") {
            Some(x) => x,
            None => return None,
        };
        let parent_operation_id = match read_opt_text(v, "parentOperationId") {
            Some(x) => x,
            None => return None,
        };
        let step_id = match read_opt_text(v, "stepId") {
            Some(x) => x,
            None => return None,
        };
        let source_invocation_id = match read_opt_text(v, "sourceInvocationId") {
            Some(x) => x,
            None => return None,
        };
        let source_run_id = match read_opt_text(v, "sourceRunId") {
            Some(x) => x,
            None => return None,
        };
        let source_turn_id = match read_opt_text(v, "sourceTurnId") {
            Some(x) => x,
            None => return None,
        };
        let source_runtime_event_high_water = match read_opt_i64(v, "sourceRuntimeEventHighWater") {
            Some(x) => x,
            None => return None,
        };
        Some(RuntimeEventRefs { stored_message_id, trace_event_id, tool_call_id, provider_event_id, source_message_digest, provider_request_trace_id, artifact_id, operation_id, parent_tool_call_id, parent_operation_id, step_id, source_invocation_id, source_run_id, source_turn_id, source_runtime_event_high_water })
    }
}

impl RuntimeEventRefsView {
    /// The members of the JSON object in the order of declaration.
    #[verifier::opaque]
    pub open spec fn declared_fields(self) -> Seq<Field> {
        Seq::empty()
            .push(("storedMessageId"@, opt_text_json(self.stored_message_id)))
            .push(("traceEventId"@, opt_text_json(self.trace_event_id)))
            .push(("toolCallId"@, opt_text_json(self.tool_call_id)))
            .push(("providerEventId"@, opt_text_json(self.provider_event_id)))
            .push(("sourceMessageDigest"@, opt_text_json(self.source_message_digest)))
            .push(("providerRequestTraceId"@, opt_text_json(self.provider_request_trace_id)))
            .push(("artifactId"@, opt_text_json(self.artifact_id)))
            .push(("operationId"@, opt_text_json(self.operation_id)))
            .push(("parentToolCallId"@, opt_text_json(self.parent_tool_call_id)))
            .push(("parentOperationId"@, opt_text_json(self.parent_operation_id)))
            .push(("stepId"@, opt_text_json(self.step_id)))
            .push(("sourceInvocationId"@, opt_text_json(self.source_invocation_id)))
            .push(("sourceRunId"@, opt_text_json(self.source_run_id)))
            .push(("sourceTurnId"@, opt_text_json(self.source_turn_id)))
            .push(("sourceRuntimeEventHighWater"@, opt_i64_json(self.source_runtime_event_high_water)))
    }

    pub open spec fn declared_json(self) -> JsonView {
        JsonView::Object(present(self.declared_fields()))
    }
}

impl RuntimeEventRefs {
    /// The JSON object with its members in the order of declaration.
    pub fn to_declared_json(&self) -> (r: Json)
        ensures
            r@ == self@.declared_json(),
    {
        let mut b = ObjectBuilder::new();
        b.put_opt("storedMessageId", from_opt_text(&self.stored_message_id));
        b.put_opt("traceEventId", from_opt_text(&self.trace_event_id));
        b.put_opt("toolCallId", from_opt_text(&self.tool_call_id));
        b.put_opt("providerEventId", from_opt_text(&self.provider_event_id));
        b.put_opt("sourceMessageDigest", from_opt_text(&self.source_message_digest));
        b.put_opt("providerRequestTraceId", from_opt_text(&self.provider_request_trace_id));
        b.put_opt("artifactId", from_opt_text(&self.artifact_id));
        b.put_opt("operationId", from_opt_text(&self.operation_id));
        b.put_opt("parentToolCallId", from_opt_text(&self.parent_tool_call_id));
        b.put_opt("parentOperationId", from_opt_text(&self.parent_operation_id));
        b.put_opt("stepId", from_opt_text(&self.step_id));
        b.put_opt("sourceInvocationId", from_opt_text(&self.source_invocation_id));
        b.put_opt("sourceRunId", from_opt_text(&self.source_run_id));
        b.put_opt("sourceTurnId", from_opt_text(&self.source_turn_id));
        b.put_opt("sourceRuntimeEventHighWater", from_opt_i64(self.source_runtime_event_high_water));
        reveal(RuntimeEventRefsView::declared_fields);
        assert(b.fields() == self@.declared_fields());
        b.build()
    }
}

/// The single internal runtime fact model.
/// 
/// Identity quintet: `session_id`, `turn_id`, `run_id`, `invocation_id` and the
/// operation id in `actions` never collapse into one another.
#[derive(Debug, PartialEq)]
pub struct RuntimeEvent {
    pub session_id: String,
    pub invocation_id: String,
    pub run_id: String,
    pub turn_id: String,
    pub branch: Option<String>,
    /// Monotonic event id within the session ledger.
    pub id: String,
    /// Wall-clock millis when the event was committed.
    pub ts: i64,
    pub role: Role,
    pub author: Author,
    pub origin: Option<Origin>,
    pub model_visibility: Option<ModelVisibility>,
    pub status: Option<Status>,
    pub content: Option<Content>,
    /// Control and side-effect intent.
    pub actions: Option<RuntimeEventActions>,
    /// Cross-event references.
    pub refs: Option<RuntimeEventRefs>,
    /// True for non-terminal partial events.
    pub partial: Option<bool>,
}

/// What a [`RuntimeEvent`] says.
pub struct RuntimeEventView {
    pub session_id: Seq<char>,
    pub invocation_id: Seq<char>,
    pub run_id: Seq<char>,
    pub turn_id: Seq<char>,
    pub branch: Option<Seq<char>>,
    pub id: Seq<char>,
    pub ts: i64,
    pub role: Role,
    pub author: Author,
    pub origin: Option<Origin>,
    pub model_visibility: Option<ModelVisibility>,
    pub status: Option<Status>,
    pub content: Option<ContentView>,
    pub actions: Option<RuntimeEventActionsView>,
    pub refs: Option<RuntimeEventRefsView>,
    pub partial: Option<bool>,
}

impl View for RuntimeEvent {
    type V = RuntimeEventView;

    open spec fn view(&self) -> RuntimeEventView {
        RuntimeEventView {
            session_id: self.session_id@,
            invocation_id: self.invocation_id@,
            run_id: self.run_id@,
            turn_id: self.turn_id@,
            branch: opt(self.branch),
            id: self.id@,
            ts: self.ts,
            role: self.role,
            author: self.author,
            origin: self.origin,
            model_visibility: self.model_visibility,
            status: self.status,
            content: opt(self.content),
            actions: opt(self.actions),
            refs: opt(self.refs),
            partial: self.partial,
        }
    }
}

impl Clone for RuntimeEvent {
    fn clone(&self) -> (r: Self)
        ensures
            r@ == self@,
    {
        RuntimeEvent {
            session_id: self.session_id.clone(),
            invocation_id: self.invocation_id.clone(),
            run_id: self.run_id.clone(),
            turn_id: self.turn_id.clone(),
            branch: clone_opt_text(&self.branch),
            id: self.id.clone(),
            ts: self.ts,
            role: self.role,
            author: self.author,
            origin: self.origin,
            model_visibility: self.model_visibility,
            status: self.status,
            content: match &self.content {
                Some(x) => Some(x.clone()),
                None => None,
            },
            actions: match &self.actions {
                Some(x) => Some(x.clone()),
                None => None,
            },
            refs: match &self.refs {
                Some(x) => Some(x.clone()),
                None => None,
            },
            partial: self.partial,
        }
    }
}

impl RuntimeEventView {
    /// The members of the JSON object, in key order.
    #[verifier::opaque]
    pub open spec fn fields(self) -> Seq<Field> {
        Seq::empty()
            .push(("actions"@, match self.actions { Some(x) => Some(x.json()), None => None }))
            .push(("author"@, Some(self.author.json())))
            .push(("branch"@, opt_text_json(self.branch)))
            .push(("content"@, match self.content { Some(x) => Some(x.json()), None => None }))
            .push(("id"@, Some(JsonView::Text(self.id))))
            .push(("invocationId"@, Some(JsonView::Text(self.invocation_id))))
            .push(("modelVisibility"@, match self.model_visibility { Some(x) => Some(x.json()), None => None }))
            .push(("origin"@, match self.origin { Some(x) => Some(x.json()), None => None }))
            .push(("partial"@, opt_bool_json(self.partial)))
            .push(("refs"@, match self.refs { Some(x) => Some(x.json()), None => None }))
            .push(("role"@, Some(self.role.json())))
            .push(("runId"@, Some(JsonView::Text(self.run_id))))
            .push(("sessionId"@, Some(JsonView::Text(self.session_id))))
            .push(("status"@, match self.status { Some(x) => Some(x.json()), None => None }))
            .push(("ts"@, Some(JsonView::Number(self.ts as int))))
            .push(("turnId"@, Some(JsonView::Text(self.turn_id))))
    }

    pub open spec fn json(self) -> JsonView {
        JsonView::Object(present(self.fields()))
    }

    /// No optional member is the JSON value `null`, which reads back as absent.
    pub open spec fn lossless(self) -> bool {
        &&& (self.content matches Some(x) ==> x.lossless())
        &&& (self.actions matches Some(x) ==> x.lossless())
    }

    /// The members in the order of declaration.
    pub open spec fn order() -> Seq<Seq<char>> {
        seq!["sessionId"@, "invocationId"@, "runId"@, "turnId"@, "branch"@, "id"@, "ts"@, "role"@, "author"@, "origin"@, "modelVisibility"@, "status"@, "content"@, "actions"@, "refs"@, "partial"@]
    }

    /// What the JSON value `v` says; `None` when it is neither such an object nor a list
    /// of its members.
    pub open spec fn of_json(v: JsonView) -> Option<RuntimeEventView> {
        RuntimeEventView::of_object(struct_form(v, RuntimeEventView::order(), 9))
    }

    /// What the JSON object `v` says; `None` when it is no such object.
    pub open spec fn of_object(v: JsonView) -> Option<RuntimeEventView> {
        let session_id = v.text_at("sessionId"@);
        let invocation_id = v.text_at("invocationId"@);
        let run_id = v.text_at("runId"@);
        let turn_id = v.text_at("turnId"@);
        let branch = opt_text_at(v, "branch"@);
        let id = v.text_at("id"@);
        let ts = i64_at(v, "ts"@);
        let role = member_at(v, "role"@, |j: JsonView| Role::of_json(j));
        let author = member_at(v, "author"@, |j: JsonView| Author::of_json(j));
        let origin = opt_at(v, "origin"@, |j: JsonView| Origin::of_json(j));
        let model_visibility = opt_at(v, "modelVisibility"@, |j: JsonView| ModelVisibility::of_json(j));
        let status = opt_at(v, "status"@, |j: JsonView| Status::of_json(j));
        let content = opt_at(v, "content"@, |j: JsonView| ContentView::of_json(j));
        let actions = opt_at(v, "actions"@, |j: JsonView| RuntimeEventActionsView::of_json(j));
        let refs = opt_at(v, "refs"@, |j: JsonView| RuntimeEventRefsView::of_json(j));
        let partial = opt_bool_at(v, "partial"@);
        if v is Object && session_id is Some && invocation_id is Some && run_id is Some && turn_id is Some && branch is Some && id is Some && ts is Some && role is Some && author is Some && origin is Some && model_visibility is Some && status is Some && content is Some && actions is Some && refs is Some && partial is Some {
            Some(
                RuntimeEventView {
                    session_id: session_id->0,
                    invocation_id: invocation_id->0,
                    run_id: run_id->0,
                    turn_id: turn_id->0,
                    branch: branch->0,
                    id: id->0,
                    ts: ts->0,
                    role: role->0,
                    author: author->0,
                    origin: origin->0,
                    model_visibility: model_visibility->0,
                    status: status->0,
                    content: content->0,
                    actions: actions->0,
                    refs: refs->0,
                    partial: partial->0,
                },
            )
        } else {
            None
        }
    }

    proof fn lemma_keys(self)
        ensures
            keys_ascend(self.fields()),
    {
        reveal(RuntimeEventView::fields);
        assert(text_lt("actions"@, "author"@)) by {
            reveal_strlit("actions");
            reveal_strlit("author");
            assert(lt_at("actions"@, "author"@, 1));
        };
        assert(text_lt("author"@, "branch"@)) by {
            reveal_strlit("author");
            reveal_strlit("branch");
            assert(lt_at("author"@, "branch"@, 0));
        };
        assert(text_lt("branch"@, "content"@)) by {
            reveal_strlit("branch");
            reveal_strlit("content");
            assert(lt_at("branch"@, "content"@, 0));
        };
        assert(text_lt("content"@, "id"@)) by {
            reveal_strlit("content");
            reveal_strlit("id");
            assert(lt_at("content"@, "id"@, 0));
        };
        assert(text_lt("id"@, "invocationId"@)) by {
            reveal_strlit("id");
            reveal_strlit("invocationId");
            assert(lt_at("id"@, "invocationId"@, 1));
        };
        assert(text_lt("invocationId"@, "modelVisibility"@)) by {
            reveal_strlit("invocationId");
            reveal_strlit("modelVisibility");
            assert(lt_at("invocationId"@, "modelVisibility"@, 0));
        };
        assert(text_lt("modelVisibility"@, "origin"@)) by {
            reveal_strlit("modelVisibility");
            reveal_strlit("origin");
            assert(lt_at("modelVisibility"@, "origin"@, 0));
        };
        assert(text_lt("origin"@, "partial"@)) by {
            reveal_strlit("origin");
            reveal_strlit("partial");
            assert(lt_at("origin"@, "partial"@, 0));
        };
        assert(text_lt("partial"@, "refs"@)) by {
            reveal_strlit("partial");
            reveal_strlit("refs");
            assert(lt_at("partial"@, "refs"@, 0));
        };
        assert(text_lt("refs"@, "role"@)) by {
            reveal_strlit("refs");
            reveal_strlit("role");
            assert(lt_at("refs"@, "role"@, 1));
        };
        assert(text_lt("role"@, "runId"@)) by {
            reveal_strlit("role");
            reveal_strlit("runId");
            assert(lt_at("role"@, "runId"@, 1));
        };
        assert(text_lt("runId"@, "sessionId"@)) by {
            reveal_strlit("runId");
            reveal_strlit("sessionId");
            assert(lt_at("runId"@, "sessionId"@, 0));
        };
        assert(text_lt("sessionId"@, "status"@)) by {
            reveal_strlit("sessionId");
            reveal_strlit("status");
            assert(lt_at("sessionId"@, "status"@, 1));
        };
        assert(text_lt("status"@, "ts"@)) by {
            reveal_strlit("status");
            reveal_strlit("ts");
            assert(lt_at("status"@, "ts"@, 0));
        };
        assert(text_lt("ts"@, "turnId"@)) by {
            reveal_strlit("ts");
            reveal_strlit("turnId");
            assert(lt_at("ts"@, "turnId"@, 1));
        };
        lemma_step_ascends(self.fields());
    }

    proof fn lemma_members(self)
        ensures
            self.json().get("actions"@) == match self.actions { Some(x) => Some(x.json()), None => None },
            self.json().get("author"@) == Some(self.author.json()),
            self.json().get("branch"@) == opt_text_json(self.branch),
            self.json().get("content"@) == match self.content { Some(x) => Some(x.json()), None => None },
            self.json().get("id"@) == Some(JsonView::Text(self.id)),
            self.json().get("invocationId"@) == Some(JsonView::Text(self.invocation_id)),
            self.json().get("modelVisibility"@) == match self.model_visibility { Some(x) => Some(x.json()), None => None },
            self.json().get("origin"@) == match self.origin { Some(x) => Some(x.json()), None => None },
            self.json().get("partial"@) == opt_bool_json(self.partial),
            self.json().get("refs"@) == match self.refs { Some(x) => Some(x.json()), None => None },
            self.json().get("role"@) == Some(self.role.json()),
            self.json().get("runId"@) == Some(JsonView::Text(self.run_id)),
            self.json().get("sessionId"@) == Some(JsonView::Text(self.session_id)),
            self.json().get("status"@) == match self.status { Some(x) => Some(x.json()), None => None },
            self.json().get("ts"@) == Some(JsonView::Number(self.ts as int)),
            self.json().get("turnId"@) == Some(JsonView::Text(self.turn_id)),
            self.json() is Object,
    {
        reveal(RuntimeEventView::fields);
        let f = self.fields();
        self.lemma_keys();
        assert(self.json().get("actions"@) == match self.actions { Some(x) => Some(x.json()), None => None }) by {
            lemma_lookup(f, 0);
        };
        assert(self.json().get("author"@) == Some(self.author.json())) by {
            lemma_lookup(f, 1);
        };
        assert(self.json().get("branch"@) == opt_text_json(self.branch)) by {
            lemma_lookup(f, 2);
        };
        assert(self.json().get("content"@) == match self.content { Some(x) => Some(x.json()), None => None }) by {
            lemma_lookup(f, 3);
        };
        assert(self.json().get("id"@) == Some(JsonView::Text(self.id))) by {
            lemma_lookup(f, 4);
        };
        assert(self.json().get("invocationId"@) == Some(JsonView::Text(self.invocation_id))) by {
            lemma_lookup(f, 5);
        };
        assert(self.json().get("modelVisibility"@) == match self.model_visibility { Some(x) => Some(x.json()), None => None }) by {
            lemma_lookup(f, 6);
        };
        assert(self.json().get("origin"@) == match self.origin { Some(x) => Some(x.json()), None => None }) by {
            lemma_lookup(f, 7);
        };
        assert(self.json().get("partial"@) == opt_bool_json(self.partial)) by {
            lemma_lookup(f, 8);
        };
        assert(self.json().get("refs"@) == match self.refs { Some(x) => Some(x.json()), None => None }) by {
            lemma_lookup(f, 9);
        };
        assert(self.json().get("role"@) == Some(self.role.json())) by {
            lemma_lookup(f, 10);
        };
        assert(self.json().get("runId"@) == Some(JsonView::Text(self.run_id))) by {
            lemma_lookup(f, 11);
        };
        assert(self.json().get("sessionId"@) == Some(JsonView::Text(self.session_id))) by {
            lemma_lookup(f, 12);
        };
        assert(self.json().get("status"@) == match self.status { Some(x) => Some(x.json()), None => None }) by {
            lemma_lookup(f, 13);
        };
        assert(self.json().get("ts"@) == Some(JsonView::Number(self.ts as int))) by {
            lemma_lookup(f, 14);
        };
        assert(self.json().get("turnId"@) == Some(JsonView::Text(self.turn_id))) by {
            lemma_lookup(f, 15);
        };
    }

    /// Reading what was written gives the same value back.
    #[verifier::rlimit(60)]
    pub proof fn lemma_round_trip(self)
        requires
            self.lossless(),
        ensures
            RuntimeEventView::of_json(self.json()) == Some(self),
    {
        self.lemma_members();
        self.role.lemma_wire();
        self.author.lemma_wire();
        if let Some(x) = self.origin { x.lemma_wire(); }
        if let Some(x) = self.model_visibility { x.lemma_wire(); }
        if let Some(x) = self.status { x.lemma_wire(); }
        if let Some(x) = self.content { x.lemma_round_trip(); }
        if let Some(x) = self.actions { x.lemma_round_trip(); }
        if let Some(x) = self.refs { x.lemma_round_trip(); }
    }

    /// Every embedded JSON value fits an object nested `n` levels deep.
    pub open spec fn embeds_sound(self, n: int) -> bool {
        &&& (self.content matches Some(x) ==> x.embeds_sound(n - 1))
        &&& (self.actions matches Some(x) ==> x.embeds_sound(n - 1))
    }

    /// The JSON object reads back from its text.
    pub proof fn lemma_sound(self, n: int)
        requires
            n >= 5,
            self.embeds_sound(n),
        ensures
            sound(self.json(), n),
    {
        self.lemma_keys();
        reveal(RuntimeEventView::fields);
        if let Some(x) = self.content { x.lemma_sound(n - 1); }
        if let Some(x) = self.actions { x.lemma_sound(n - 1); }
        if let Some(x) = self.refs { x.lemma_sound(n - 1); }
        lemma_sound_object(self.fields(), n);
    }
}

impl RuntimeEvent {
    /// The JSON object for this value.
    pub fn to_json(&self) -> (r: Json)
        ensures
            r@ == self@.json(),
    {
        let mut b = ObjectBuilder::new();
        b.put_opt(
            "actions",
            match &self.actions {
                Some(x) => Some(x.to_json()),
                None => None,
            },
        );
        b.put("author", self.author.to_json());
        b.put_opt("branch", from_opt_text(&self.branch));
        b.put_opt(
            "content",
            match &self.content {
                Some(x) => Some(x.to_json()),
                None => None,
            },
        );
        b.put_text("id", self.id.as_str());
        b.put_text("invocationId", self.invocation_id.as_str());
        b.put_opt(
            "modelVisibility",
            match &self.model_visibility {
                Some(x) => Some(x.to_json()),
                None => None,
            },
        );
        b.put_opt(
            "origin",
            match &self.origin {
                Some(x) => Some(x.to_json()),
                None => None,
            },
        );
        b.put_opt("partial", from_opt_bool(self.partial));
        b.put_opt(
            "refs",
            match &self.refs {
                Some(x) => Some(x.to_json()),
                None => None,
            },
        );
        b.put("role", self.role.to_json());
        b.put_text("runId", self.run_id.as_str());
        b.put_text("sessionId", self.session_id.as_str());
        b.put_opt(
            "status",
            match &self.status {
                Some(x) => Some(x.to_json()),
                None => None,
            },
        );
        b.put("ts", Json::Int(self.ts));
        b.put_text("turnId", self.turn_id.as_str());
        reveal(RuntimeEventView::fields);
        assert(b.fields() == self@.fields());
        b.build()
    }

    /// Reads the value back from its JSON object, or from a list of its members in the
    /// order of declaration; unknown members are ignored.
    pub fn from_json(v: &Json) -> (r: Option<RuntimeEvent>)
        ensures
            match r {
                Some(x) => RuntimeEventView::of_json(v@) == Some(x@),
                None => RuntimeEventView::of_json(v@) is None,
            },
    {
        let names: [&str; 16] = ["sessionId", "invocationId", "runId", "turnId", "branch", "id", "ts", "role", "author", "origin", "modelVisibility", "status", "content", "actions", "refs", "partial"];
        assert(key_views(names@) =~= RuntimeEventView::order());
        match listed_members(v, &names, 9) {
            Some(o) => RuntimeEvent::from_object(&o),
            None => RuntimeEvent::from_object(v),
        }
    }

    fn from_object(v: &Json) -> (r: Option<RuntimeEvent>)
        ensures
            match r {
                Some(x) => RuntimeEventView::of_object(v@) == Some(x@),
                None => RuntimeEventView::of_object(v@) is None,
            },
    {
        match v {
            Json::Object(_) => {},
            _ => return None,
        }
        let session_id = match v.text_at("sessionId") {
            Some(x) => x,
            None => return None,
        };
        let invocation_id = match v.text_at("invocationId") {
            Some(x) => x,
            None => return None,
        };
        let run_id = match v.text_at("runId") {
            Some(x) => x,
            None => return None,
        };
        let turn_id = match v.text_at("turnId") {
            Some(x) => x,
            None => return None,
        };
        let branch = match read_opt_text(v, "branch") {
            Some(x) => x,
            None => return None,
        };
        let id = match v.text_at("id") {
            Some(x) => x,
            None => return None,
        };
        let ts = match read_i64(v, "ts") {
            Some(x) => x,
            None => return None,
        };
        let role = match v.get("role") {
            Some(j) => match Role::from_json(j) {
                Some(x) => x,
                None => return None,
            },
            None => return None,
        };
        let author = match v.get("author") {
            Some(j) => match Author::from_json(j) {
                Some(x) => x,
                None => return None,
            },
            None => return None,
        };
        let origin = match read_optional(v, "origin") {
            Some(j) => match Origin::from_json(j) {
                Some(x) => Some(x),
                None => return None,
            },
            None => None,
        };
        let model_visibility = match read_optional(v, "modelVisibility") {
            Some(j) => match ModelVisibility::from_json(j) {
                Some(x) => Some(x),
                None => return None,
            },
            None => None,
        };
        let status = match read_optional(v, "status") {
            Some(j) => match Status::from_json(j) {
                Some(x) => Some(x),
                None => return None,
            },
            None => None,
        };
        let content = match read_optional(v, "content") {
            Some(j) => match Content::from_json(j) {
                Some(x) => Some(x),
                None => return None,
            },
            None => None,
        };
        let actions = match read_optional(v, "actions") {
            Some(j) => match RuntimeEventActions::from_json(j) {
                Some(x) => Some(x),
                None => return None,
            },
            None => None,
        };
        let refs = match read_optional(v, "refs") {
            Some(j) => match RuntimeEventRefs::from_json(j) {
                Some(x) => Some(x),
                None => return None,
            },
            None => None,
        };
        let partial = match read_opt_bool(v, "partial") {
            Some(x) => x,
            None => return None,
        };
        Some(RuntimeEvent { session_id, invocation_id, run_id, turn_id, branch, id, ts, role, author, origin, model_visibility, status, content, actions, refs, partial })
    }
}

impl RuntimeEventView {
    /// The members of the JSON object in the order of declaration.
    #[verifier::opaque]
    pub open spec fn declared_fields(self) -> Seq<Field> {
        Seq::empty()
            .push(("sessionId"@, Some(JsonView::Text(self.session_id))))
            .push(("invocationId"@, Some(JsonView::Text(self.invocation_id))))
            .push(("runId"@, Some(JsonView::Text(self.run_id))))
            .push(("turnId"@, Some(JsonView::Text(self.turn_id))))
            .push(("branch"@, opt_text_json(self.branch)))
            .push(("id"@, Some(JsonView::Text(self.id))))
            .push(("ts"@, Some(JsonView::Number(self.ts as int))))
            .push(("role"@, Some(self.role.json())))
            .push(("author"@, Some(self.author.json())))
            .push(("origin"@, match self.origin { Some(x) => Some(x.json()), None => None }))
            .push(("modelVisibility"@, match self.model_visibility { Some(x) => Some(x.json()), None => None }))
            .push(("status"@, match self.status { Some(x) => Some(x.json()), None => None }))
            .push(("content"@, match self.content { Some(x) => Some(x.declared_json()), None => None }))
            .push(("actions"@, match self.actions { Some(x) => Some(x.declared_json()), None => None }))
            .push(("refs"@, match self.refs { Some(x) => Some(x.declared_json()), None => None }))
            .push(("partial"@, opt_bool_json(self.partial)))
    }

    pub open spec fn declared_json(self) -> JsonView {
        JsonView::Object(present(self.declared_fields()))
    }
}

impl RuntimeEvent {
    /// The JSON object with its members in the order of declaration.
    pub fn to_declared_json(&self) -> (r: Json)
        ensures
            r@ == self@.declared_json(),
    {
        let mut b = ObjectBuilder::new();
        b.put_text("sessionId", self.session_id.as_str());
        b.put_text("invocationId", self.invocation_id.as_str());
        b.put_text("runId", self.run_id.as_str());
        b.put_text("turnId", self.turn_id.as_str());
        b.put_opt("branch", from_opt_text(&self.branch));
        b.put_text("id", self.id.as_str());
        b.put("ts", Json::Int(self.ts));
        b.put("role", self.role.to_json());
        b.put("author", self.author.to_json());
        b.put_opt(
            "origin",
            match &self.origin {
                Some(x) => Some(x.to_json()),
                None => None,
            },
        );
        b.put_opt(
            "modelVisibility",
            match &self.model_visibility {
                Some(x) => Some(x.to_json()),
                None => None,
            },
        );
        b.put_opt(
            "status",
            match &self.status {
                Some(x) => Some(x.to_json()),
                None => None,
            },
        );
        b.put_opt(
            "content",
            match &self.content {
                Some(x) => Some(x.to_declared_json()),
                None => None,
            },
        );
        b.put_opt(
            "actions",
            match &self.actions {
                Some(x) => Some(x.to_declared_json()),
                None => None,
            },
        );
        b.put_opt(
            "refs",
            match &self.refs {
                Some(x) => Some(x.to_declared_json()),
                None => None,
            },
        );
        b.put_opt("partial", from_opt_bool(self.partial));
        reveal(RuntimeEventView::declared_fields);
        assert(b.fields() == self@.declared_fields());
        b.build()
    }
}

/// What the JSON value in `text` says, read as an event.
pub open spec fn event_in(text: Seq<char>) -> Option<RuntimeEventView> {
    match value_parsed(text) {
        Ok(v) => RuntimeEventView::of_json(v),
        Err(_) => None,
    }
}

impl RuntimeEvent {
    /// Canonical lossless JSON: the stable identity form for the event ledger.
    ///
    /// Object keys are in ascending order at every level, and absent members
    /// are left out. Reading the text gives the same event back as long as no
    /// embedded value is an explicit `null`, a fraction or nested beyond what
    /// the JSON reader accepts.
    pub fn to_canonical_json(&self) -> (r: Result<String, String>)
        ensures
            r is Ok,
            r->Ok_0@ == json_text(sorted(self@.json())),
            self@.lossless() && self@.embeds_sound(MAX_NESTING as int) ==> event_in(r->Ok_0@) == Some(
                self@,
            ),
    {
        let value = self.to_json();
        let sorted_value = sort_value_keys(&value);
        let text = sorted_value.to_text();
        proof {
            if self@.lossless() && self@.embeds_sound(MAX_NESTING as int) {
                self@.lemma_sound(MAX_NESTING as int);
                lemma_sorted_canonical(self@.json());
                self@.lemma_round_trip();
            }
        }
        Ok(text)
    }
}

/// The bytes that the digest of a tool call is taken over.
pub open spec fn tool_args_preimage(tool_name: Seq<char>, args: JsonView) -> Seq<u8> {
    encode_utf8(tool_name) + seq![0x1fu8] + encode_utf8(json_text(sorted(args)))
}

/// Canonical SHA-256 of the tool name and the sorted-keys args: the digest a
/// dispatch fact carries so recovery can authenticate that the dispatched args
/// match the model's function-call args.
pub fn canonical_tool_args_hash(tool_name: &str, args: &Json) -> (r: String)
    ensures
        r@ == "sha256:"@ + hex(sha256(tool_args_preimage(tool_name@, args@))),
{
    let text = sort_value_keys(args).to_text();
    let preimage = joined(tool_name, text.as_str());
    concat("sha256:", hex_lower(sha256_of(preimage.as_slice()).as_slice()).as_str())
}

/// The digest of a tool call does not depend on the order in which its
/// arguments were listed.
pub proof fn law_args_hash_ignores_key_order(tool_name: Seq<char>, a: JsonView, b: JsonView)
    requires
        same_value(a, b),
    ensures
        tool_args_preimage(tool_name, a) == tool_args_preimage(tool_name, b),
{
    lemma_same_value_sorts_alike(a, b);
}

/// Deterministic durable operation id for one tool side-effect boundary, from
/// the invocation and the provider's call, so the same provider call replays to
/// the same operation id across crash recovery.
pub fn operation_id(invocation_id: &str, tool_call_id: &str) -> (r: String)
    ensures
        r@ == "op_"@ + hex(
            sha256(encode_utf8(invocation_id@) + seq![0x1fu8] + encode_utf8(tool_call_id@)),
        ),
{
    let preimage = joined(invocation_id, tool_call_id);
    concat("op_", hex_lower(sha256_of(preimage.as_slice()).as_slice()).as_str())
}

/// The bytes of `a` and `b` with a unit separator between them.
fn joined(a: &str, b: &str) -> (r: Vec<u8>)
    ensures
        r@ == encode_utf8(a@) + seq![0x1fu8] + encode_utf8(b@),
{
    let mut out: Vec<u8> = Vec::new();
    extend_bytes(&mut out, a.as_bytes());
    out.push(0x1f);
    extend_bytes(&mut out, b.as_bytes());
    assert(out@ =~= encode_utf8(a@) + seq![0x1fu8] + encode_utf8(b@));
    out
}

impl ContentView {
    /// The members of the JSON object, each under its own name.
    pub proof fn law_members(self)
        ensures
            match self {
                ContentView::Text { text, provider_options, steering } => {
                    &&& self.json().get("kind"@) == (Some(JsonView::Text("text"@)))
                    &&& self.json().get("providerOptions"@) == (provider_options)
                    &&& self.json().get("steering"@) == (opt_bool_json(steering))
                    &&& self.json().get("text"@) == (Some(JsonView::Text(text)))
                },
                ContentView::Thinking { text, signature, provider_options } => {
                    &&& self.json().get("kind"@) == (Some(JsonView::Text("thinking"@)))
                    &&& self.json().get("providerOptions"@) == (provider_options)
                    &&& self.json().get("signature"@) == (opt_text_json(signature))
                    &&& self.json().get("text"@) == (Some(JsonView::Text(text)))
                },
                ContentView::FunctionCall { id, name, args, provider_options, provider_executed } => {
                    &&& self.json().get("args"@) == (Some(args))
                    &&& self.json().get("id"@) == (Some(JsonView::Text(id)))
                    &&& self.json().get("kind"@) == (Some(JsonView::Text("function_call"@)))
                    &&& self.json().get("name"@) == (Some(JsonView::Text(name)))
                    &&& self.json().get("providerExecuted"@) == (opt_bool_json(provider_executed))
                    &&& self.json().get("providerOptions"@) == (provider_options)
                },
                ContentView::FunctionResponse { id, name, result, is_error, provider_executed, provider_output } => {
                    &&& self.json().get("id"@) == (Some(JsonView::Text(id)))
                    &&& self.json().get("isError"@) == (opt_bool_json(is_error))
                    &&& self.json().get("kind"@) == (Some(JsonView::Text("function_response"@)))
                    &&& self.json().get("name"@) == (Some(JsonView::Text(name)))
                    &&& self.json().get("providerExecuted"@) == (opt_bool_json(provider_executed))
                    &&& self.json().get("providerOutput"@) == (provider_output)
                    &&& self.json().get("result"@) == (Some(result))
                },
                ContentView::Error { message, code, reason, details } => {
                    &&& self.json().get("code"@) == (opt_text_json(code))
                    &&& self.json().get("details"@) == (details)
                    &&& self.json().get("kind"@) == (Some(JsonView::Text("error"@)))
                    &&& self.json().get("message"@) == (Some(JsonView::Text(message)))
                    &&& self.json().get("reason"@) == (opt_text_json(reason))
                },
            },
    {
        let f = self.fields();
        self.lemma_keys();
        match self {
            ContentView::Text { .. } => {
                lemma_lookup(f, 0);
                lemma_lookup(f, 1);
                lemma_lookup(f, 2);
                lemma_lookup(f, 3);
            },
            ContentView::Thinking { .. } => {
                lemma_lookup(f, 0);
                lemma_lookup(f, 1);
                lemma_lookup(f, 2);
                lemma_lookup(f, 3);
            },
            ContentView::FunctionCall { .. } => {
                lemma_lookup(f, 0);
                lemma_lookup(f, 1);
                lemma_lookup(f, 2);
                lemma_lookup(f, 3);
                lemma_lookup(f, 4);
                lemma_lookup(f, 5);
            },
            ContentView::FunctionResponse { .. } => {
                lemma_lookup(f, 0);
                lemma_lookup(f, 1);
                lemma_lookup(f, 2);
                lemma_lookup(f, 3);
                lemma_lookup(f, 4);
                lemma_lookup(f, 5);
                lemma_lookup(f, 6);
            },
            ContentView::Error { .. } => {
                lemma_lookup(f, 0);
                lemma_lookup(f, 1);
                lemma_lookup(f, 2);
                lemma_lookup(f, 3);
                lemma_lookup(f, 4);
            },
        }
    }
}

/// Only a streaming event leaves its run open; the four others end it.
pub proof fn law_terminal_statuses(s: Status, r: bool)
    requires
        call_ensures(Status::is_terminal, (s,), r),
    ensures
        r <==> s is Completed || s is Failed || s is Aborted || s is Cancelled,
{
}

/// The digest of a call tells tools apart, and arguments: two tools with the same
/// arguments, and two arguments with different texts of the same tool, are digested from
/// different bytes.
pub proof fn law_args_hash_covers_tool_and_args(
    tool: Seq<char>,
    other: Seq<char>,
    a: JsonView,
    b: JsonView,
)
    ensures
        tool_args_preimage(tool, a) == tool_args_preimage(other, a) ==> tool == other,
        tool_args_preimage(tool, a) == tool_args_preimage(tool, b) ==> json_text(sorted(a))
            == json_text(sorted(b)),
{
    let t = encode_utf8(tool);
    let o = encode_utf8(other);
    let x = encode_utf8(json_text(sorted(a)));
    let y = encode_utf8(json_text(sorted(b)));
    if tool_args_preimage(tool, a) == tool_args_preimage(other, a) {
        assert(t =~= tool_args_preimage(tool, a).take(t.len() as int));
        assert(o =~= tool_args_preimage(other, a).take(o.len() as int));
        assert(t.len() == o.len());
        vstd::utf8::encode_utf8_decode_utf8(tool);
        vstd::utf8::encode_utf8_decode_utf8(other);
    }
    if tool_args_preimage(tool, a) == tool_args_preimage(tool, b) {
        assert(x =~= tool_args_preimage(tool, a).skip(t.len() as int + 1));
        assert(y =~= tool_args_preimage(tool, b).skip(t.len() as int + 1));
        vstd::utf8::encode_utf8_decode_utf8(json_text(sorted(a)));
        vstd::utf8::encode_utf8_decode_utf8(json_text(sorted(b)));
    }
}

/// The names of a call's digest and of its operation: a prefix that says what it is, and the
/// hexadecimal SHA-256 of its two parts with a unit separator between them.
pub proof fn law_digests_are_named(
    tool_name: &str,
    args: &Json,
    invocation_id: &str,
    tool_call_id: &str,
    hash: String,
    operation: String,
)
    requires
        call_ensures(canonical_tool_args_hash, (tool_name, args), hash),
        call_ensures(operation_id, (invocation_id, tool_call_id), operation),
    ensures
        hash@ == "sha256:"@ + hex(
            sha256(
                encode_utf8(tool_name@) + seq![0x1fu8] + encode_utf8(json_text(sorted(args@))),
            ),
        ),
        operation@ == "op_"@ + hex(
            sha256(encode_utf8(invocation_id@) + seq![0x1fu8] + encode_utf8(tool_call_id@)),
        ),
{
}

impl ContentView {
    /// The members that are written, the tag first, each in its place.
    pub proof fn law_declared_members(self)
        ensures
            match self {
                ContentView::Text { text, provider_options, steering } => {
                    &&& self.declared_fields().len() == 4
                    &&& self.declared_fields()[0] == ("kind"@, Some(JsonView::Text("text"@)))
                    &&& self.declared_fields()[1] == ("text"@, Some(JsonView::Text(text)))
                    &&& self.declared_fields()[2] == ("providerOptions"@, opt_tree(provider_options))
                    &&& self.declared_fields()[3] == ("steering"@, opt_bool_json(steering))
                },
                ContentView::Thinking { text, signature, provider_options } => {
                    &&& self.declared_fields().len() == 4
                    &&& self.declared_fields()[0] == ("kind"@, Some(JsonView::Text("thinking"@)))
                    &&& self.declared_fields()[1] == ("text"@, Some(JsonView::Text(text)))
                    &&& self.declared_fields()[2] == ("signature"@, opt_text_json(signature))
                    &&& self.declared_fields()[3] == ("providerOptions"@, opt_tree(provider_options))
                },
                ContentView::FunctionCall { id, name, args, provider_options, provider_executed } => {
                    &&& self.declared_fields().len() == 6
                    &&& self.declared_fields()[0] == ("kind"@, Some(JsonView::Text("function_call"@)))
                    &&& self.declared_fields()[1] == ("id"@, Some(JsonView::Text(id)))
                    &&& self.declared_fields()[2] == ("name"@, Some(JsonView::Text(name)))
                    &&& self.declared_fields()[3] == ("args"@, Some(tree(args)))
                    &&& self.declared_fields()[4] == ("providerOptions"@, opt_tree(provider_options))
                    &&& self.declared_fields()[5] == ("providerExecuted"@, opt_bool_json(provider_executed))
                },
                ContentView::FunctionResponse { id, name, result, is_error, provider_executed, provider_output } => {
                    &&& self.declared_fields().len() == 7
                    &&& self.declared_fields()[0] == ("kind"@, Some(JsonView::Text("function_response"@)))
                    &&& self.declared_fields()[1] == ("id"@, Some(JsonView::Text(id)))
                    &&& self.declared_fields()[2] == ("name"@, Some(JsonView::Text(name)))
                    &&& self.declared_fields()[3] == ("result"@, Some(tree(result)))
                    &&& self.declared_fields()[4] == ("isError"@, opt_bool_json(is_error))
                    &&& self.declared_fields()[5] == ("providerExecuted"@, opt_bool_json(provider_executed))
                    &&& self.declared_fields()[6] == ("providerOutput"@, opt_tree(provider_output))
                },
                ContentView::Error { message, code, reason, details } => {
                    &&& self.declared_fields().len() == 5
                    &&& self.declared_fields()[0] == ("kind"@, Some(JsonView::Text("error"@)))
                    &&& self.declared_fields()[1] == ("message"@, Some(JsonView::Text(message)))
                    &&& self.declared_fields()[2] == ("code"@, opt_text_json(code))
                    &&& self.declared_fields()[3] == ("reason"@, opt_text_json(reason))
                    &&& self.declared_fields()[4] == ("details"@, opt_tree(details))
                },
            },
    {
    }
}

impl ToolDispatchView {
    /// The members that are written, each in its place in the order of declaration.
    pub proof fn law_declared_members(self)
        ensures
            self.declared_fields().len() == 6,
            self.declared_fields()[0] == ("protocol"@, Some(JsonView::Text(self.protocol))),
            self.declared_fields()[1] == ("operationId"@, Some(JsonView::Text(self.operation_id))),
            self.declared_fields()[2] == ("providerToolCallId"@, Some(JsonView::Text(self.provider_tool_call_id))),
            self.declared_fields()[3] == ("toolName"@, Some(JsonView::Text(self.tool_name))),
            self.declared_fields()[4] == ("canonicalArgsHash"@, Some(JsonView::Text(self.canonical_args_hash))),
            self.declared_fields()[5] == ("recoveryMode"@, Some(self.recovery_mode.json())),
    {
    }
}

impl ProtocolMarkerView {
    /// The members that are written, each in its place in the order of declaration.
    pub proof fn law_declared_members(self)
        ensures
            self.declared_fields().len() == 1,
            self.declared_fields()[0] == ("toolBoundary"@, Some(JsonView::Text(self.tool_boundary))),
    {
    }
}

impl PermissionDecisionActionView {
    /// The members that are written, each in its place in the order of declaration.
    pub proof fn law_declared_members(self)
        ensures
            self.declared_fields().len() == 4,
            self.declared_fields()[0] == ("requestId"@, Some(JsonView::Text(self.request_id))),
            self.declared_fields()[1] == ("decision"@, Some(self.decision.json())),
            self.declared_fields()[2] == ("rememberForTurn"@, opt_bool_json(self.remember_for_turn)),
            self.declared_fields()[3] == ("toolName"@, opt_text_json(self.tool_name)),
    {
    }
}

impl RuntimeEventActionsView {
    /// The members that are written, each in its place in the order of declaration.
    pub proof fn law_declared_members(self)
        ensures
            self.declared_fields().len() == 16,
            self.declared_fields()[0] == ("stateDelta"@, opt_tree(self.state_delta)),
            self.declared_fields()[1] == ("artifactDelta"@, opt_tree(self.artifact_delta)),
            self.declared_fields()[2] == ("permissionRequest"@, opt_tree(self.permission_request)),
            self.declared_fields()[3] == ("permissionDecision"@, match self.permission_decision { Some(x) => Some(x.declared_json()), None => None }),
            self.declared_fields()[4] == ("permissionAnswerAccepted"@, opt_tree(self.permission_answer_accepted)),
            self.declared_fields()[5] == ("permissionClosureAccepted"@, opt_tree(self.permission_closure_accepted)),
            self.declared_fields()[6] == ("userQuestionRequest"@, opt_tree(self.user_question_request)),
            self.declared_fields()[7] == ("userQuestionAnswerAccepted"@, opt_tree(self.user_question_answer_accepted)),
            self.declared_fields()[8] == ("transferToAgent"@, opt_text_json(self.transfer_to_agent)),
            self.declared_fields()[9] == ("endInvocation"@, opt_bool_json(self.end_invocation)),
            self.declared_fields()[10] == ("tokenUsage"@, opt_tree(self.token_usage)),
            self.declared_fields()[11] == ("toolDispatch"@, match self.tool_dispatch { Some(x) => Some(x.declared_json()), None => None }),
            self.declared_fields()[12] == ("toolRecovery"@, match self.tool_recovery { Some(x) => Some(x.declared_json()), None => None }),
            self.declared_fields()[13] == ("runtimeProtocol"@, match self.runtime_protocol { Some(x) => Some(x.declared_json()), None => None }),
            self.declared_fields()[14] == ("continuationStart"@, opt_tree(self.continuation_start)),
            self.declared_fields()[15] == ("workspaceFact"@, opt_tree(self.workspace_fact)),
    {
        reveal(RuntimeEventActionsView::declared_fields);
    }
}

impl RuntimeEventRefsView {
    /// The members that are written, each in its place in the order of declaration.
    pub proof fn law_declared_members(self)
        ensures
            self.declared_fields().len() == 15,
            self.declared_fields()[0] == ("storedMessageId"@, opt_text_json(self.stored_message_id)),
            self.declared_fields()[1] == ("traceEventId"@, opt_text_json(self.trace_event_id)),
            self.declared_fields()[2] == ("toolCallId"@, opt_text_json(self.tool_call_id)),
            self.declared_fields()[3] == ("providerEventId"@, opt_text_json(self.provider_event_id)),
            self.declared_fields()[4] == ("sourceMessageDigest"@, opt_text_json(self.source_message_digest)),
            self.declared_fields()[5] == ("providerRequestTraceId"@, opt_text_json(self.provider_request_trace_id)),
            self.declared_fields()[6] == ("artifactId"@, opt_text_json(self.artifact_id)),
            self.declared_fields()[7] == ("operationId"@, opt_text_json(self.operation_id)),
            self.declared_fields()[8] == ("parentToolCallId"@, opt_text_json(self.parent_tool_call_id)),
            self.declared_fields()[9] == ("parentOperationId"@, opt_text_json(self.parent_operation_id)),
            self.declared_fields()[10] == ("stepId"@, opt_text_json(self.step_id)),
            self.declared_fields()[11] == ("sourceInvocationId"@, opt_text_json(self.source_invocation_id)),
            self.declared_fields()[12] == ("sourceRunId"@, opt_text_json(self.source_run_id)),
            self.declared_fields()[13] == ("sourceTurnId"@, opt_text_json(self.source_turn_id)),
            self.declared_fields()[14] == ("sourceRuntimeEventHighWater"@, opt_i64_json(self.source_runtime_event_high_water)),
    {
        reveal(RuntimeEventRefsView::declared_fields);
    }
}

impl RuntimeEventView {
    /// The members that are written, each in its place in the order of declaration.
    pub proof fn law_declared_members(self)
        ensures
            self.declared_fields().len() == 16,
            self.declared_fields()[0] == ("sessionId"@, Some(JsonView::Text(self.session_id))),
            self.declared_fields()[1] == ("invocationId"@, Some(JsonView::Text(self.invocation_id))),
            self.declared_fields()[2] == ("runId"@, Some(JsonView::Text(self.run_id))),
            self.declared_fields()[3] == ("turnId"@, Some(JsonView::Text(self.turn_id))),
            self.declared_fields()[4] == ("branch"@, opt_text_json(self.branch)),
            self.declared_fields()[5] == ("id"@, Some(JsonView::Text(self.id))),
            self.declared_fields()[6] == ("ts"@, Some(JsonView::Number(self.ts as int))),
            self.declared_fields()[7] == ("role"@, Some(self.role.json())),
            self.declared_fields()[8] == ("author"@, Some(self.author.json())),
            self.declared_fields()[9] == ("origin"@, match self.origin { Some(x) => Some(x.json()), None => None }),
            self.declared_fields()[10] == ("modelVisibility"@, match self.model_visibility { Some(x) => Some(x.json()), None => None }),
            self.declared_fields()[11] == ("status"@, match self.status { Some(x) => Some(x.json()), None => None }),
            self.declared_fields()[12] == ("content"@, match self.content { Some(x) => Some(x.declared_json()), None => None }),
            self.declared_fields()[13] == ("actions"@, match self.actions { Some(x) => Some(x.declared_json()), None => None }),
            self.declared_fields()[14] == ("refs"@, match self.refs { Some(x) => Some(x.declared_json()), None => None }),
            self.declared_fields()[15] == ("partial"@, opt_bool_json(self.partial)),
    {
        reveal(RuntimeEventView::declared_fields);
    }
}

} // verus!
