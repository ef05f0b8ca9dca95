//! The execution-engine seam.

use crate::json::Json;
use crate::json::JsonView;
use crate::session_event::SessionEvent;
use crate::session_event::SessionEventView;
use crate::text::concat3;
use crate::text::decimal;
use crate::text::decimal_text;
use crate::text::str_eq;
use crate::schema::read_variant;
use crate::schema::variant_name;
use vstd::prelude::*;

verus! {

/// Which backend implementation is driving the session.
#[derive(Debug, Clone, Copy, PartialEq, Eq, Structural)]
pub enum BackendKind {
    AiSdk,
    Fake,
    PiAgent,
}

impl BackendKind {
    /// The name of the variant on the wire.
    pub open spec fn wire(self) -> Seq<char> {
        match self {
            BackendKind::AiSdk => "ai-sdk"@,
            BackendKind::Fake => "fake"@,
            BackendKind::PiAgent => "pi-agent"@,
        }
    }

    /// The names on the wire: each variant is written, and read back, as its own.
    pub proof fn law_wire_names()
        ensures
            BackendKind::AiSdk.wire() == "ai-sdk"@,
            BackendKind::of_wire("ai-sdk"@) == Some(BackendKind::AiSdk),
            BackendKind::Fake.wire() == "fake"@,
            BackendKind::of_wire("fake"@) == Some(BackendKind::Fake),
            BackendKind::PiAgent.wire() == "pi-agent"@,
            BackendKind::of_wire("pi-agent"@) == Some(BackendKind::PiAgent),
    {
        BackendKind::AiSdk.lemma_wire();
        BackendKind::Fake.lemma_wire();
        BackendKind::PiAgent.lemma_wire();
    }

    pub open spec fn json(self) -> JsonView {
        JsonView::Text(self.wire())
    }

    /// The variant that `s` names on the wire.
    pub open spec fn of_wire(s: Seq<char>) -> Option<BackendKind> {
        if s == "ai-sdk"@ {
            Some(BackendKind::AiSdk)
        } else if s == "fake"@ {
            Some(BackendKind::Fake)
        } else if s == "pi-agent"@ {
            Some(BackendKind::PiAgent)
        } else {
            None
        }
    }

    pub open spec fn of_json(v: JsonView) -> Option<BackendKind> {
        match variant_name(v) {
            Some(s) => BackendKind::of_wire(s),
            None => None,
        }
    }

    /// The name of the variant on the wire.
    pub fn as_str(self) -> (r: &'static str)
        ensures
            r@ == self.wire(),
    {
        match self {
            BackendKind::AiSdk => "ai-sdk",
            BackendKind::Fake => "fake",
            BackendKind::PiAgent => "pi-agent",
        }
    }

    pub fn to_json(self) -> (r: Json)
        ensures
            r@ == self.json(),
    {
        Json::Text(self.as_str().to_owned())
    }

    /// The variant that `s` names on the wire.
    pub fn parse(s: &str) -> (r: Option<BackendKind>)
        ensures
            r == BackendKind::of_wire(s@),
    {
        if str_eq(s, "ai-sdk") {
            Some(BackendKind::AiSdk)
        } else if str_eq(s, "fake") {
            Some(BackendKind::Fake)
        } else if str_eq(s, "pi-agent") {
            Some(BackendKind::PiAgent)
        } else {
            None
        }
    }

    pub fn from_json(v: &Json) -> (r: Option<BackendKind>)
        ensures
            r == BackendKind::of_json(v@),
    {
        match read_variant(v) {
            Some(s) => BackendKind::parse(s.as_str()),
            None => None,
        }
    }

    /// Every variant is read back from its wire name.
    pub proof fn lemma_wire(self)
        ensures
            BackendKind::of_wire(self.wire()) == Some(self),
            BackendKind::of_json(self.json()) == Some(self),
    {
        reveal_strlit("ai-sdk");
        reveal_strlit("fake");
        reveal_strlit("pi-agent");
        assert("ai-sdk"@.len() == 6);
        assert("fake"@.len() == 4);
        assert("pi-agent"@.len() == 8);
    }
}

#[derive(Debug, Clone, Copy, PartialEq, Eq, Structural)]
pub enum BackendStopReason {
    UserStop,
    Redirect,
}

#[derive(Debug, Clone, Copy, PartialEq, Eq, Structural)]
pub enum BackendStopMode {
    Immediate,
    AfterStep,
}

/// One tool call recorded in assistant history.
#[derive(Debug, PartialEq)]
pub struct AssistantToolCall {
    pub id: String,
    pub name: String,
    pub args: Json,
}

/// One signed thinking block from an assistant message.
#[derive(Debug, PartialEq)]
pub struct ThinkingBlock {
    pub text: String,
    /// Signed thinking; re-sent verbatim on replay.
    pub signature: Option<String>,
}

/// Conversation history crossing the backend boundary. The runner threads tool
/// results back in as `Tool` messages so the model can continue.
#[allow(inconsistent_fields)]
#[derive(Debug, PartialEq)]
pub enum ChatMessage {
    User { content: String },
    Assistant {
        content: Option<String>,
        tool_calls: Vec<AssistantToolCall>,
        /// Signed thinking blocks.
        thinking: Vec<ThinkingBlock>,
    },
    Tool { tool_call_id: String, content: String },
}

/// Input to one `send` invocation. `messages` is the full conversation history.
#[derive(Debug)]
pub struct BackendSendInput {
    pub turn_id: String,
    pub run_id: Option<String>,
    pub invocation_id: Option<String>,
    pub max_steps: Option<u32>,
    pub messages: Vec<ChatMessage>,
    /// Optional system prompt prepended to the request.
    pub system_prompt: Option<String>,
    /// Function-calling tool definitions.
    pub tools: Vec<Json>,
}

/// What a backend operation gives; the error is a message.
pub type BackendResult<T> = Result<T, String>;

/// Port for executing tools, used by backends that drive an internal tool loop.
pub trait ToolExecutor {
    fn execute(&self, name: &str, args: &Json) -> Result<String, String>;

    fn openai_functions(&self) -> Vec<Json>;
}

/// Execution-engine port. `send` gives the events of one step; `compact_history`
/// asks the model to summarize a prefix of messages so the next request can
/// carry a smaller continuation view.
pub trait AgentBackend {
    fn kind(&self) -> BackendKind;

    fn session_id(&self) -> &str;

    fn send(&mut self, input: &BackendSendInput) -> Vec<SessionEvent>;

    fn stop(&mut self, reason: BackendStopReason, mode: Option<BackendStopMode>) -> BackendResult<
        (),
    >;

    fn dispose(&mut self) -> BackendResult<()>;

    fn compact_history(&self, messages: &[ChatMessage]) -> BackendResult<String>;
}

/// The events a list holds, as model values.
pub open spec fn session_event_views(v: Seq<SessionEvent>) -> Seq<SessionEventView> {
    Seq::new(v.len(), |i: int| v[i]@)
}

/// Scripted backend for tests and embedding.
///
/// `new` replays one step on the first `send`. `new_stepped` replays `steps[i]`
/// on the i-th `send`, so a multi-step tool loop can be scripted. Past the
/// script every step is empty.
pub struct FakeBackend {
    session_id: String,
    steps: Vec<Vec<SessionEvent>>,
    calls: usize,
}

impl FakeBackend {
    pub closed spec fn session(&self) -> Seq<char> {
        self.session_id@
    }

    /// The script, step by step.
    pub closed spec fn script(&self) -> Seq<Seq<SessionEventView>> {
        Seq::new(self.steps@.len(), |i: int| session_event_views(self.steps@[i]@))
    }

    /// How many steps have been asked for.
    pub closed spec fn calls(&self) -> usize {
        self.calls
    }

    pub fn new(session_id: &str, script: Vec<SessionEvent>) -> (r: Self)
        ensures
            r.session() == session_id@,
            r.script() == seq![session_event_views(script@)],
            r.calls() == 0,
    {
        let ghost events = session_event_views(script@);
        let mut steps: Vec<Vec<SessionEvent>> = Vec::new();
        steps.push(script);
        let r = FakeBackend { session_id: session_id.to_owned(), steps, calls: 0 };
        assert(r.script() =~= seq![events]);
        r
    }

    pub fn new_stepped(session_id: &str, steps: Vec<Vec<SessionEvent>>) -> (r: Self)
        ensures
            r.session() == session_id@,
            r.script() == Seq::new(
                steps@.len(),
                |i: int| session_event_views(steps@[i]@),
            ),
            r.calls() == 0,
    {
        FakeBackend { session_id: session_id.to_owned(), steps, calls: 0 }
    }
}

fn clone_session_events(v: &Vec<SessionEvent>) -> (r: Vec<SessionEvent>)
    ensures
        session_event_views(r@) == session_event_views(v@),
{
    let mut out: Vec<SessionEvent> = Vec::new();
    let mut i: usize = 0;
    while i < v.len()
        invariant
            i <= v.len(),
            i == out.len(),
            forall|k: int| 0 <= k < i ==> (#[trigger] out@[k])@ == v@[k]@,
        decreases v.len() - i,
    {
        out.push(v[i].clone());
        i = i + 1;
    }
    assert(session_event_views(out@) =~= session_event_views(v@));
    out
}

impl AgentBackend for FakeBackend {
    fn kind(&self) -> (r: BackendKind)
        ensures
            r == BackendKind::Fake,
    {
        BackendKind::Fake
    }

    fn session_id(&self) -> (r: &str)
        ensures
            r@ == self.session(),
    {
        self.session_id.as_str()
    }

    fn send(&mut self, input: &BackendSendInput) -> (r: Vec<SessionEvent>)
        ensures
            session_event_views(r@) == (if old(self).calls() < old(self).script().len() {
                old(self).script()[old(self).calls() as int]
            } else {
                Seq::empty()
            }),
            final(self).script() == old(self).script(),
            final(self).session() == old(self).session(),
            final(self).calls() == (if old(self).calls() < usize::MAX {
                old(self).calls() + 1
            } else {
                usize::MAX as int
            }),
    {
        let step = if self.calls < self.steps.len() {
            clone_session_events(&self.steps[self.calls])
        } else {
            let none: Vec<SessionEvent> = Vec::new();
            assert(session_event_views(none@) =~= Seq::empty());
            none
        };
        if self.calls < usize::MAX {
            self.calls = self.calls + 1;
        }
        step
    }

    fn stop(&mut self, reason: BackendStopReason, mode: Option<BackendStopMode>) -> (r:
        BackendResult<()>)
        ensures
            r is Ok,
            *final(self) == *old(self),
    {
        Ok(())
    }

    fn dispose(&mut self) -> (r: BackendResult<()>)
        ensures
            r is Ok,
            *final(self) == *old(self),
    {
        Ok(())
    }

    fn compact_history(&self, messages: &[ChatMessage]) -> (r: BackendResult<String>)
        ensures
            r matches Ok(s) && s@ == "[fake compact of "@ + decimal(messages@.len()) + " messages]"@,
    {
        let count = decimal_text(messages.len() as u64);
        Ok(concat3("[fake compact of ", count.as_str(), " messages]"))
    }
}

} // verus!
