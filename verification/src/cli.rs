//! Command lines of the `meepo` and `meepo-host` programs, and what they make of
//! them.

use crate::interaction::PermissionAnswer;
use crate::interaction::PermissionDecision;
use crate::json::json_text;
use crate::permission::PermissionMode;
use crate::runtime_event::Content;
use crate::runtime_event::ContentView;
use crate::runtime_event::Role;
use crate::runtime_event::RuntimeEvent;
use crate::backend::session_event_views;
use crate::schema::clone_opt_text;
use crate::schema::texts;
use crate::server::provider_factory::anthropic_plan;
use crate::server::provider_factory::openai_plan;
use crate::server::provider_factory::plan_anthropic;
use crate::server::provider_factory::plan_openai;
use crate::server::provider_factory::script;
use crate::server::provider_factory::scripted;
use crate::server::provider_factory::BackendPlan;
use crate::server::provider_factory::MissingKey;
use crate::server::provider_factory::PlanView;
use crate::server::provider_factory::ProviderChoice;
use crate::server::provider_factory::ProviderEnv;
use crate::session_event::SessionEvent;
use crate::json::opt;
use crate::text::chars_eq;
use crate::text::chars_of;
use crate::text::concat;
use crate::text::concat3;
use crate::text::cut;
use crate::text::lower;
use crate::text::lowered;
use crate::text::parse_number;
use crate::text::parsed_number;
use crate::text::str_eq;
use crate::text::string_of;
use crate::text::trim;
use crate::text::trimmed;
use vstd::prelude::*;

verus! {

/// What the program does.
#[derive(Debug, Clone, Copy, PartialEq, Eq, Structural)]
pub enum Mode {
    Run,
    Chat,
    Headless,
}

/// A parsed command line of the `meepo` program.
#[derive(Debug)]
pub struct Cli {
    pub mode: Mode,
    pub provider: String,
    pub prompt: Option<String>,
    pub model: Option<String>,
    pub base_url: Option<String>,
    pub session: Option<String>,
    pub db: Option<String>,
    pub system: Option<String>,
    pub permission_mode: PermissionMode,
    pub max_attempts: Option<u32>,
    pub self_check: bool,
}

/// What a [`Cli`] says.
pub struct CliView {
    pub mode: Mode,
    pub provider: Seq<char>,
    pub prompt: Option<Seq<char>>,
    pub model: Option<Seq<char>>,
    pub base_url: Option<Seq<char>>,
    pub session: Option<Seq<char>>,
    pub db: Option<Seq<char>>,
    pub system: Option<Seq<char>>,
    pub permission_mode: PermissionMode,
    pub max_attempts: Option<u32>,
    pub self_check: bool,
}

impl View for Cli {
    type V = CliView;

    open spec fn view(&self) -> CliView {
        CliView {
            mode: self.mode,
            provider: self.provider@,
            prompt: opt(self.prompt),
            model: opt(self.model),
            base_url: opt(self.base_url),
            session: opt(self.session),
            db: opt(self.db),
            system: opt(self.system),
            permission_mode: self.permission_mode,
            max_attempts: self.max_attempts,
            self_check: self.self_check,
        }
    }
}

/// What an empty command line says.
pub open spec fn default_cli() -> CliView {
    CliView {
        mode: Mode::Run,
        provider: "fake"@,
        prompt: None,
        model: None,
        base_url: None,
        session: None,
        db: None,
        system: None,
        permission_mode: PermissionMode::Ask,
        max_attempts: None,
        self_check: false,
    }
}

/// The attempts that an argument allows.
pub open spec fn attempts_of(arg: Seq<char>) -> Option<u32> {
    match parsed_number(arg, u32::MAX as nat) {
        Some(n) => Some(n as u32),
        None => None,
    }
}

/// What the first argument changes, where it stands alone; the first argument that
/// is no word of the program is the prompt.
pub open spec fn with_word(cli: CliView, arg: Seq<char>) -> CliView {
    if arg == "run"@ {
        CliView { mode: Mode::Run, ..cli }
    } else if arg == "chat"@ {
        CliView { mode: Mode::Chat, ..cli }
    } else if arg == "headless"@ {
        CliView { mode: Mode::Headless, ..cli }
    } else if arg == "--self-check"@ {
        CliView { self_check: true, ..cli }
    } else if cli.prompt is None {
        CliView { prompt: Some(arg), ..cli }
    } else {
        cli
    }
}

/// What an option with its value changes: `None` when the first argument is no
/// option that takes one, an error when the value is no permission mode.
pub open spec fn with_option(cli: CliView, arg: Seq<char>, value: Seq<char>) -> Option<
    Result<CliView, Seq<char>>,
> {
    if arg == "--provider"@ {
        Some(Ok(CliView { provider: value, ..cli }))
    } else if arg == "--model"@ {
        Some(Ok(CliView { model: Some(value), ..cli }))
    } else if arg == "--base-url"@ {
        Some(Ok(CliView { base_url: Some(value), ..cli }))
    } else if arg == "--session"@ {
        Some(Ok(CliView { session: Some(value), ..cli }))
    } else if arg == "--db"@ {
        Some(Ok(CliView { db: Some(value), ..cli }))
    } else if arg == "--system"@ {
        Some(Ok(CliView { system: Some(value), ..cli }))
    } else if arg == "--mode"@ {
        match PermissionMode::of_wire(value) {
            Some(permission_mode) => Some(Ok(CliView { permission_mode, ..cli })),
            None => Some(Err(value)),
        }
    } else if arg == "--max-attempts"@ {
        Some(Ok(CliView { max_attempts: attempts_of(value), ..cli }))
    } else {
        None
    }
}

/// What the arguments say, read behind `cli`: the command line, or the permission
/// mode that there is not.
pub open spec fn parsed(cli: CliView, args: Seq<Seq<char>>) -> Result<CliView, Seq<char>>
    decreases args.len(),
{
    if args.len() == 0 {
        Ok(cli)
    } else if args.len() > 1 && with_option(cli, args[0], args[1]) is Some {
        match with_option(cli, args[0], args[1])->0 {
            Ok(next) => parsed(next, args.skip(2)),
            Err(e) => Err(e),
        }
    } else {
        parsed(with_word(cli, args[0]), args.skip(1))
    }
}

fn default_command() -> (r: Cli)
    ensures
        r@ == default_cli(),
{
    Cli {
        mode: Mode::Run,
        provider: "fake".to_owned(),
        prompt: None,
        model: None,
        base_url: None,
        session: None,
        db: None,
        system: None,
        permission_mode: PermissionMode::Ask,
        max_attempts: None,
        self_check: false,
    }
}

fn take_word(cli: Cli, arg: &String) -> (r: Cli)
    ensures
        r@ == with_word(cli@, arg@),
{
    let s = arg.as_str();
    if str_eq(s, "run") {
        Cli { mode: Mode::Run, ..cli }
    } else if str_eq(s, "chat") {
        Cli { mode: Mode::Chat, ..cli }
    } else if str_eq(s, "headless") {
        Cli { mode: Mode::Headless, ..cli }
    } else if str_eq(s, "--self-check") {
        Cli { self_check: true, ..cli }
    } else if cli.prompt.is_none() {
        Cli { prompt: Some(arg.clone()), ..cli }
    } else {
        cli
    }
}

/// What an option with its value leads to.
enum Taken {
    /// The first argument is no option that takes a value.
    Nothing(Cli),
    Changed(Cli),
    /// The value is no permission mode.
    BadMode(String),
}

fn take_option(cli: Cli, arg: &String, value: &String) -> (r: Taken)
    ensures
        match r {
            Taken::Nothing(c) => with_option(cli@, arg@, value@) is None && c@ == cli@,
            Taken::Changed(c) => with_option(cli@, arg@, value@) == Some(
                Ok::<CliView, Seq<char>>(c@),
            ),
            Taken::BadMode(m) => with_option(cli@, arg@, value@) == Some(
                Err::<CliView, Seq<char>>(m@),
            ),
        },
{
    let s = arg.as_str();
    let v = value.clone();
    if str_eq(s, "--provider") {
        Taken::Changed(Cli { provider: v, ..cli })
    } else if str_eq(s, "--model") {
        Taken::Changed(Cli { model: Some(v), ..cli })
    } else if str_eq(s, "--base-url") {
        Taken::Changed(Cli { base_url: Some(v), ..cli })
    } else if str_eq(s, "--session") {
        Taken::Changed(Cli { session: Some(v), ..cli })
    } else if str_eq(s, "--db") {
        Taken::Changed(Cli { db: Some(v), ..cli })
    } else if str_eq(s, "--system") {
        Taken::Changed(Cli { system: Some(v), ..cli })
    } else if str_eq(s, "--mode") {
        match PermissionMode::parse(v.as_str()) {
            Some(permission_mode) => Taken::Changed(Cli { permission_mode, ..cli }),
            None => Taken::BadMode(v),
        }
    } else if str_eq(s, "--max-attempts") {
        let max_attempts = match parse_number(v.as_str(), u32::MAX as u64) {
            Some(n) => Some(n as u32),
            None => None,
        };
        Taken::Changed(Cli { max_attempts, ..cli })
    } else {
        Taken::Nothing(cli)
    }
}

/// Parses the arguments of the `meepo` program; the error is an unknown permission
/// mode.
pub fn parse_cli(args: &Vec<String>) -> (r: Result<Cli, String>)
    ensures
        match r {
            Ok(cli) => parsed(default_cli(), texts(args@)) == Ok::<CliView, Seq<char>>(cli@),
            Err(m) => parsed(default_cli(), texts(args@)) == Err::<CliView, Seq<char>>(m@),
        },
{
    let ghost all = texts(args@);
    let mut cli = default_command();
    let mut i: usize = 0;
    assert(all.skip(0) =~= all);
    while i < args.len()
        invariant
            i <= args.len(),
            all == texts(args@),
            parsed(default_cli(), all) == parsed(cli@, all.skip(i as int)),
        decreases args.len() - i,
    {
        let ghost rest = all.skip(i as int);
        assert(rest[0] == args@[i as int]@);
        assert(rest.skip(1) =~= all.skip(i + 1));
        if i + 1 < args.len() {
            assert(rest[1] == args@[i + 1]@);
            assert(rest.skip(2) =~= all.skip(i + 2));
            match take_option(cli, &args[i], &args[i + 1]) {
                Taken::Changed(next) => {
                    cli = next;
                    i = i + 2;
                },
                Taken::BadMode(m) => return Err(m),
                Taken::Nothing(same) => {
                    cli = take_word(same, &args[i]);
                    i = i + 1;
                },
            }
        } else {
            cli = take_word(cli, &args[i]);
            i = i + 1;
        }
    }
    assert(all.skip(i as int).len() == 0);
    Ok(cli)
}

/// What is said about an unknown permission mode.
pub fn unknown_mode_message(mode: &str) -> (r: String)
    ensures
        r@ == "unknown --mode '"@ + mode@ + "'; use explore|ask|execute|bypass"@,
{
    concat3("unknown --mode '", mode, "'; use explore|ask|execute|bypass")
}

/// Without arguments there is no prompt, and a lone word is one.
pub proof fn law_bare_prompt(word: Seq<char>)
    requires
        word != "run"@ && word != "chat"@ && word != "headless"@ && word != "--self-check"@,
    ensures
        parsed(default_cli(), Seq::empty()) == Ok::<CliView, Seq<char>>(default_cli()),
        default_cli().prompt is None,
        parsed(default_cli(), seq![word]) == Ok::<CliView, Seq<char>>(
            CliView { prompt: Some(word), ..default_cli() },
        ),
        parsed(default_cli(), seq!["run"@, word]) == Ok::<CliView, Seq<char>>(
            CliView { prompt: Some(word), ..default_cli() },
        ),
{
    let one = seq![word];
    let two = seq!["run"@, word];
    assert(one.skip(1) =~= Seq::empty());
    assert(parsed(with_word(default_cli(), word), one.skip(1)) == Ok::<CliView, Seq<char>>(
        with_word(default_cli(), word),
    ));
    reveal_strlit("run");
    reveal_strlit("--provider");
    reveal_strlit("--model");
    reveal_strlit("--base-url");
    reveal_strlit("--session");
    reveal_strlit("--db");
    reveal_strlit("--system");
    reveal_strlit("--mode");
    reveal_strlit("--max-attempts");
    assert("run"@.len() == 3);
    assert("--provider"@.len() == 10 && "--model"@.len() == 7 && "--base-url"@.len() == 10
        && "--session"@.len() == 9 && "--db"@.len() == 4 && "--system"@.len() == 8
        && "--mode"@.len() == 6 && "--max-attempts"@.len() == 14);
    assert(with_option(default_cli(), "run"@, word) is None);
    assert(two.skip(1) =~= one);
    assert(with_word(default_cli(), "run"@) == default_cli());
}

// ---------------------------------------------------------------------------
// What the program does
// ---------------------------------------------------------------------------

/// What a command line asks for.
#[derive(Debug, PartialEq)]
pub enum CliAction {
    Chat,
    Headless { instruction: String },
    Run { prompt: String },
    /// A prompt is missing: say how the program is used and fail.
    Usage(&'static str),
}

pub const HEADLESS_USAGE: &'static str = "usage: meepo headless [--provider ...] [--max-attempts N] <instruction>";

pub const RUN_USAGE: &'static str = "usage: meepo run [--provider fake|openai] [--model M] [--base-url U] [--system S] <prompt>";

/// What a command line asks for: only a chat needs no prompt.
pub fn cli_action(cli: &Cli) -> (r: CliAction)
    ensures
        match (cli@.mode, cli@.prompt) {
            (Mode::Chat, _) => r is Chat,
            (Mode::Headless, Some(p)) => r matches CliAction::Headless { instruction }
                && instruction@ == p,
            (Mode::Headless, None) => r matches CliAction::Usage(u) && u@ == HEADLESS_USAGE@,
            (Mode::Run, Some(p)) => r matches CliAction::Run { prompt } && prompt@ == p,
            (Mode::Run, None) => r matches CliAction::Usage(u) && u@ == RUN_USAGE@,
        },
{
    match (cli.mode, &cli.prompt) {
        (Mode::Chat, _) => CliAction::Chat,
        (Mode::Headless, Some(p)) => CliAction::Headless { instruction: p.clone() },
        (Mode::Headless, None) => CliAction::Usage(HEADLESS_USAGE),
        (Mode::Run, Some(p)) => CliAction::Run { prompt: p.clone() },
        (Mode::Run, None) => CliAction::Usage(RUN_USAGE),
    }
}

/// The session of a command line.
pub fn session_of(cli: &Cli) -> (r: String)
    ensures
        r@ == match cli@.session {
            Some(s) => s,
            None => "cli-session"@,
        },
{
    match &cli.session {
        Some(s) => s.clone(),
        None => "cli-session".to_owned(),
    }
}

/// The system prompt of a command line, where `default` is the program's own.
pub fn resolve_system(cli: &Cli, default: &str) -> (r: String)
    ensures
        r@ == match cli@.system {
            Some(s) => s,
            None => default@,
        },
{
    match &cli.system {
        Some(s) => s.clone(),
        None => default.to_owned(),
    }
}

/// The database of a user whose home directory is `home`.
pub fn default_db(home: Option<String>) -> (r: String)
    ensures
        r@ == (match home {
            Some(h) => h@,
            None => "."@,
        }) + "/.meepo/runtime.sqlite"@,
{
    match home {
        Some(h) => concat(h.as_str(), "/.meepo/runtime.sqlite"),
        None => concat(".", "/.meepo/runtime.sqlite"),
    }
}

/// How many attempts a headless task gets.
pub fn attempts_allowed(cli: &Cli) -> (r: u32)
    ensures
        r == match cli@.max_attempts {
            Some(n) => n,
            None => 3,
        },
{
    match cli.max_attempts {
        Some(n) => n,
        None => 3,
    }
}

/// The ids of the task and the task run of a headless session.
pub fn headless_ids(session_id: &str) -> (r: (String, String))
    ensures
        r.0@ == "task-"@ + session_id@,
        r.1@ == "headless-"@ + session_id@,
{
    (concat("task-", session_id), concat("headless-", session_id))
}

/// The backend that a command line asks for.
pub open spec fn cli_plan(
    choice: ProviderChoice,
    env: ProviderEnv,
    default_anthropic_model: Seq<char>,
) -> Result<PlanView, MissingKey> {
    if choice.provider@ == "aimux"@ || choice.provider@ == "openai"@ {
        openai_plan(choice, env)
    } else if choice.provider@ == "anthropic"@ {
        anthropic_plan(choice, env, default_anthropic_model)
    } else {
        Ok(PlanView::Fake)
    }
}

/// The provider settings of a command line.
pub fn provider_choice(cli: &Cli) -> (r: ProviderChoice)
    ensures
        r.provider@ == cli@.provider,
        opt(r.model) == cli@.model,
        opt(r.base_url) == cli@.base_url,
{
    ProviderChoice {
        provider: cli.provider.clone(),
        model: clone_opt_text(&cli.model),
        base_url: clone_opt_text(&cli.base_url),
    }
}

/// The backend that a command line asks for; unlike a daemon, the program fails
/// where the key is missing. The Anthropic model where none is chosen is the program's
/// to say.
pub fn build_backend(
    choice: &ProviderChoice,
    env: &ProviderEnv,
    default_anthropic_model: &str,
) -> (r: Result<BackendPlan, MissingKey>)
    ensures
        match r {
            Ok(plan) => cli_plan(*choice, *env, default_anthropic_model@) == Ok::<
                PlanView,
                MissingKey,
            >(plan@),
            Err(e) => cli_plan(*choice, *env, default_anthropic_model@) == Err::<
                PlanView,
                MissingKey,
            >(e),
        },
{
    let provider = choice.provider.as_str();
    if str_eq(provider, "aimux") || str_eq(provider, "openai") {
        plan_openai(choice, env)
    } else if str_eq(provider, "anthropic") {
        plan_anthropic(choice, env, default_anthropic_model)
    } else {
        Ok(BackendPlan::Fake)
    }
}

/// What the program says about a missing key.
pub fn missing_key_message(missing: MissingKey) -> (r: &'static str)
    ensures
        r@ == match missing {
            MissingKey::OpenAi => "OPENAI_API_KEY is not set"@,
            MissingKey::Anthropic => "ANTHROPIC_API_KEY or ANTHROPIC_AUTH_TOKEN is not set"@,
        },
{
    match missing {
        MissingKey::OpenAi => "OPENAI_API_KEY is not set",
        MissingKey::Anthropic => "ANTHROPIC_API_KEY or ANTHROPIC_AUTH_TOKEN is not set",
    }
}

/// The script of the fake backend: it echoes the prompt.
pub fn fake_script(prompt: &str) -> (r: Vec<SessionEvent>)
    ensures
        session_event_views(r@) == scripted("meepo (fake backend): "@ + prompt@),
{
    script(concat("meepo (fake backend): ", prompt).as_str())
}

// ---------------------------------------------------------------------------
// Terminal
// ---------------------------------------------------------------------------

/// What an event puts on the terminal.
#[derive(Debug, PartialEq)]
pub enum LiveOutput {
    /// Text of the model, without a line end.
    Out(String),
    /// A diagnostic line.
    Diagnostic(String),
    Nothing,
}

/// What an event puts on the terminal: the model's text, results of tools that
/// succeeded, and errors.
pub fn print_event_live(e: &RuntimeEvent) -> (r: LiveOutput)
    ensures
        match (e@.role, e@.content) {
            (Role::Model, Some(ContentView::Text { text, .. })) => r matches LiveOutput::Out(s)
                && s@ == text,
            (_, Some(ContentView::FunctionResponse { result, is_error, .. })) => if is_error != Some(
                true,
            ) {
                r matches LiveOutput::Diagnostic(s) && s@ == "[tool result] "@ + json_text(result)
            } else {
                r is Nothing
            },
            (_, Some(ContentView::Error { message, .. })) => r matches LiveOutput::Diagnostic(s)
                && s@ == "[error] "@ + message,
            _ => r is Nothing,
        },
{
    match (&e.role, &e.content) {
        (Role::Model, Some(Content::Text { text, .. })) => LiveOutput::Out(text.clone()),
        (_, Some(Content::FunctionResponse { result, is_error, .. })) => {
            let failed = match is_error {
                Some(b) => *b,
                None => false,
            };
            if failed {
                LiveOutput::Nothing
            } else {
                LiveOutput::Diagnostic(concat("[tool result] ", result.to_text().as_str()))
            }
        },
        (_, Some(Content::Error { message, .. })) => LiveOutput::Diagnostic(
            concat("[error] ", message.as_str()),
        ),
        _ => LiveOutput::Nothing,
    }
}

/// A line allows if it is a `y` in either case, with white space around it.
pub open spec fn allows(line: Seq<char>) -> bool {
    lower(trim(line)) == "y"@
}

/// The answer that a line typed at a permission prompt gives; no line denies.
pub fn answer_of_line(line: Option<String>) -> (r: PermissionAnswer)
    ensures
        !r.remember_for_turn,
        r.decision is Allow <==> (line matches Some(s) && allows(s@)),
{
    let allow = match line {
        Some(s) => {
            let low = lowered(trimmed(chars_of(s.as_str()).as_slice()).as_slice());
            chars_eq(low.as_slice(), "y")
        },
        None => false,
    };
    PermissionAnswer {
        decision: if allow {
            PermissionDecision::Allow
        } else {
            PermissionDecision::Deny
        },
        remember_for_turn: false,
    }
}

/// `line` without the line feeds at its end.
pub open spec fn without_line_feeds(line: Seq<char>) -> Seq<char>
    decreases line.len(),
{
    if line.len() > 0 && line.last() == '\n' {
        without_line_feeds(line.drop_last())
    } else {
        line
    }
}

/// The message that a line typed in a chat holds, if it is not empty.
pub fn chat_line(line: &str) -> (r: Option<String>)
    ensures
        match r {
            Some(s) => s@ == without_line_feeds(line@) && s@.len() > 0,
            None => without_line_feeds(line@).len() == 0,
        },
{
    let chars = chars_of(line);
    let mut end: usize = chars.len();
    assert(line@.take(end as int) =~= line@);
    while end > 0 && chars[end - 1] == '\n'
        invariant
            end <= chars.len(),
            chars@ == line@,
            without_line_feeds(line@) == without_line_feeds(line@.take(end as int)),
        decreases end,
    {
        assert(line@.take(end as int).drop_last() =~= line@.take(end - 1));
        end = end - 1;
    }
    let text = cut(chars.as_slice(), 0, end);
    assert(text@ =~= line@.take(end as int));
    if end == 0 {
        return None;
    }
    Some(string_of(text.as_slice()))
}

// ---------------------------------------------------------------------------
// The daemon
// ---------------------------------------------------------------------------

/// A parsed command line of the `meepo-host` program.
#[derive(Debug, PartialEq)]
pub struct HostArgs {
    pub root: String,
    pub provider: String,
    pub idle_grace_ms: Option<u64>,
}

/// Why a command line of the `meepo-host` program is refused.
#[derive(Debug, PartialEq)]
pub enum HostArgsError {
    InvalidIdleGrace(String),
    UnknownArgument(String),
    RootRequired,
}

/// What has been read of a daemon's command line.
pub struct HostArgsView {
    pub root: Option<Seq<char>>,
    pub provider: Seq<char>,
    pub idle_grace_ms: Option<u64>,
}

/// What a [`HostArgsError`] says.
pub enum HostArgsFault {
    InvalidIdleGrace(Seq<char>),
    UnknownArgument(Seq<char>),
    RootRequired,
}

impl View for HostArgsError {
    type V = HostArgsFault;

    open spec fn view(&self) -> HostArgsFault {
        match *self {
            HostArgsError::InvalidIdleGrace(s) => HostArgsFault::InvalidIdleGrace(s@),
            HostArgsError::UnknownArgument(s) => HostArgsFault::UnknownArgument(s@),
            HostArgsError::RootRequired => HostArgsFault::RootRequired,
        }
    }
}

/// What the arguments of a daemon say, read behind `a`. The expected root id is
/// read over.
pub open spec fn host_parsed(a: HostArgsView, args: Seq<Seq<char>>) -> Result<
    HostArgsView,
    HostArgsFault,
>
    decreases args.len(),
{
    if args.len() == 0 {
        Ok(a)
    } else if args.len() == 1 {
        Err(HostArgsFault::UnknownArgument(args[0]))
    } else if args[0] == "--root"@ {
        host_parsed(HostArgsView { root: Some(args[1]), ..a }, args.skip(2))
    } else if args[0] == "--provider"@ {
        host_parsed(HostArgsView { provider: args[1], ..a }, args.skip(2))
    } else if args[0] == "--idle-grace-ms"@ {
        match parsed_number(args[1], u64::MAX as nat) {
            Some(n) => host_parsed(
                HostArgsView { idle_grace_ms: Some(n as u64), ..a },
                args.skip(2),
            ),
            None => Err(HostArgsFault::InvalidIdleGrace(args[1])),
        }
    } else if args[0] == "--expected-root-id"@ {
        host_parsed(a, args.skip(2))
    } else {
        Err(HostArgsFault::UnknownArgument(args[0]))
    }
}

/// What an empty command line of a daemon says.
pub open spec fn host_defaults() -> HostArgsView {
    HostArgsView { root: None, provider: "fake"@, idle_grace_ms: None }
}

/// Parses the arguments of the `meepo-host` program; a root is required.
pub fn parse_host_args(args: &Vec<String>) -> (r: Result<HostArgs, HostArgsError>)
    ensures
        match r {
            Ok(a) => host_parsed(host_defaults(), texts(args@)) == Ok::<
                HostArgsView,
                HostArgsFault,
            >(
                HostArgsView {
                    root: Some(a.root@),
                    provider: a.provider@,
                    idle_grace_ms: a.idle_grace_ms,
                },
            ),
            Err(HostArgsError::RootRequired) => host_parsed(
                host_defaults(),
                texts(args@),
            ) matches Ok(v) && v.root is None,
            Err(e) => host_parsed(host_defaults(), texts(args@)) == Err::<
                HostArgsView,
                HostArgsFault,
            >(e@),
        },
{
    let ghost all = texts(args@);
    let mut root: Option<String> = None;
    let mut provider = "fake".to_owned();
    let mut idle_grace_ms: Option<u64> = None;
    let mut i: usize = 0;
    assert(all.skip(0) =~= all);
    while i < args.len()
        invariant
            i <= args.len(),
            all == texts(args@),
            host_parsed(host_defaults(), all) == host_parsed(
                HostArgsView { root: opt(root), provider: provider@, idle_grace_ms },
                all.skip(i as int),
            ),
        decreases args.len() - i,
    {
        let ghost rest = all.skip(i as int);
        assert(rest[0] == args@[i as int]@);
        let arg = args[i].as_str();
        if i + 1 == args.len() {
            return Err(HostArgsError::UnknownArgument(args[i].clone()));
        }
        assert(rest[1] == args@[i + 1]@);
        assert(rest.skip(2) =~= all.skip(i + 2));
        let value = &args[i + 1];
        if str_eq(arg, "--root") {
            root = Some(value.clone());
        } else if str_eq(arg, "--provider") {
            provider = value.clone();
        } else if str_eq(arg, "--idle-grace-ms") {
            match parse_number(value.as_str(), u64::MAX) {
                Some(n) => {
                    idle_grace_ms = Some(n);
                },
                None => return Err(HostArgsError::InvalidIdleGrace(value.clone())),
            }
        } else if !str_eq(arg, "--expected-root-id") {
            return Err(HostArgsError::UnknownArgument(args[i].clone()));
        }
        i = i + 2;
    }
    assert(all.skip(i as int).len() == 0);
    match root {
        Some(root) => Ok(HostArgs { root, provider, idle_grace_ms }),
        None => Err(HostArgsError::RootRequired),
    }
}

/// How the `meepo-host` program is used.
pub const HOST_USAGE: &'static str = "usage: meepo-host --root <dir> --expected-root-id <id> [--idle-grace-ms N]";

impl HostArgsFault {
    pub open spec fn text(self) -> Seq<char> {
        match self {
            HostArgsFault::InvalidIdleGrace(s) => "meepo-host: invalid --idle-grace-ms '"@ + s
                + "'"@,
            HostArgsFault::UnknownArgument(s) => "meepo-host: unknown argument '"@ + s + "'"@,
            HostArgsFault::RootRequired => "meepo-host: --root is required"@,
        }
    }
}

impl HostArgsError {
    /// What the program says about the command line.
    pub fn message(&self) -> (r: String)
        ensures
            r@ == self@.text(),
    {
        match self {
            HostArgsError::InvalidIdleGrace(s) => concat3(
                "meepo-host: invalid --idle-grace-ms '",
                s.as_str(),
                "'",
            ),
            HostArgsError::UnknownArgument(s) => concat3(
                "meepo-host: unknown argument '",
                s.as_str(),
                "'",
            ),
            HostArgsError::RootRequired => "meepo-host: --root is required".to_owned(),
        }
    }
}

/// The socket of a host that owns `root`.
pub fn socket_path(root: &str) -> (r: String)
    ensures
        r@ == root@ + "/host.sock"@,
{
    concat(root, "/host.sock")
}

proof fn lemma_words()
    ensures
        "--provider"@ != "--model"@,
        "--provider"@ != "--base-url"@,
        "--provider"@ != "--session"@,
        "--provider"@ != "--db"@,
        "--provider"@ != "--system"@,
        "--provider"@ != "--mode"@,
        "--provider"@ != "--max-attempts"@,
        "--provider"@ != "run"@,
        "--provider"@ != "chat"@,
        "--provider"@ != "headless"@,
        "--provider"@ != "--self-check"@,
        "--model"@ != "--base-url"@,
        "--model"@ != "--session"@,
        "--model"@ != "--db"@,
        "--model"@ != "--system"@,
        "--model"@ != "--mode"@,
        "--model"@ != "--max-attempts"@,
        "--model"@ != "run"@,
        "--model"@ != "chat"@,
        "--model"@ != "headless"@,
        "--model"@ != "--self-check"@,
        "--base-url"@ != "--session"@,
        "--base-url"@ != "--db"@,
        "--base-url"@ != "--system"@,
        "--base-url"@ != "--mode"@,
        "--base-url"@ != "--max-attempts"@,
        "--base-url"@ != "run"@,
        "--base-url"@ != "chat"@,
        "--base-url"@ != "headless"@,
        "--base-url"@ != "--self-check"@,
        "--session"@ != "--db"@,
        "--session"@ != "--system"@,
        "--session"@ != "--mode"@,
        "--session"@ != "--max-attempts"@,
        "--session"@ != "run"@,
        "--session"@ != "chat"@,
        "--session"@ != "headless"@,
        "--session"@ != "--self-check"@,
        "--db"@ != "--system"@,
        "--db"@ != "--mode"@,
        "--db"@ != "--max-attempts"@,
        "--db"@ != "run"@,
        "--db"@ != "chat"@,
        "--db"@ != "headless"@,
        "--db"@ != "--self-check"@,
        "--system"@ != "--mode"@,
        "--system"@ != "--max-attempts"@,
        "--system"@ != "run"@,
        "--system"@ != "chat"@,
        "--system"@ != "headless"@,
        "--system"@ != "--self-check"@,
        "--mode"@ != "--max-attempts"@,
        "--mode"@ != "run"@,
        "--mode"@ != "chat"@,
        "--mode"@ != "headless"@,
        "--mode"@ != "--self-check"@,
        "--max-attempts"@ != "run"@,
        "--max-attempts"@ != "chat"@,
        "--max-attempts"@ != "headless"@,
        "--max-attempts"@ != "--self-check"@,
        "run"@ != "chat"@,
        "run"@ != "headless"@,
        "run"@ != "--self-check"@,
        "chat"@ != "headless"@,
        "chat"@ != "--self-check"@,
        "headless"@ != "--self-check"@,
{
    reveal_strlit("--provider");
    reveal_strlit("--model");
    reveal_strlit("--base-url");
    reveal_strlit("--session");
    reveal_strlit("--db");
    reveal_strlit("--system");
    reveal_strlit("--mode");
    reveal_strlit("--max-attempts");
    reveal_strlit("run");
    reveal_strlit("chat");
    reveal_strlit("headless");
    reveal_strlit("--self-check");
    assert("--provider"@.len() == 10);
    assert("--model"@.len() == 7);
    assert("--base-url"@.len() == 10);
    assert("--session"@.len() == 9);
    assert("--db"@.len() == 4);
    assert("--system"@.len() == 8);
    assert("--mode"@.len() == 6);
    assert("--max-attempts"@.len() == 14);
    assert("run"@.len() == 3);
    assert("chat"@.len() == 4);
    assert("headless"@.len() == 8);
    assert("--self-check"@.len() == 12);
    assert("--provider"@[2] != "--base-url"@[2]);
    assert("--db"@[0] != "chat"@[0]);
    assert("--system"@[0] != "headless"@[0]);
}

/// What the arguments of the program say, one at a time, whatever was read before and
/// follows behind: each option sets what it is named for to the argument behind it, each
/// word what it says, and the first other argument is the prompt.
pub proof fn law_arguments_say_what_they_are_named_for(
    cli: CliView,
    value: Seq<char>,
    rest: Seq<Seq<char>>,
)
    ensures
        parsed(cli, seq!["--provider"@, value] + rest) == parsed(CliView { provider: value, ..cli }, rest),
        parsed(cli, seq!["--model"@, value] + rest) == parsed(CliView { model: Some(value), ..cli }, rest),
        parsed(cli, seq!["--base-url"@, value] + rest) == parsed(CliView { base_url: Some(value), ..cli }, rest),
        parsed(cli, seq!["--session"@, value] + rest) == parsed(CliView { session: Some(value), ..cli }, rest),
        parsed(cli, seq!["--db"@, value] + rest) == parsed(CliView { db: Some(value), ..cli }, rest),
        parsed(cli, seq!["--system"@, value] + rest) == parsed(CliView { system: Some(value), ..cli }, rest),
        parsed(cli, seq!["--mode"@, "explore"@] + rest) == parsed(
            CliView { permission_mode: PermissionMode::Explore, ..cli },
            rest,
        ),
        parsed(cli, seq!["--mode"@, "ask"@] + rest) == parsed(
            CliView { permission_mode: PermissionMode::Ask, ..cli },
            rest,
        ),
        parsed(cli, seq!["--mode"@, "execute"@] + rest) == parsed(
            CliView { permission_mode: PermissionMode::Execute, ..cli },
            rest,
        ),
        parsed(cli, seq!["--mode"@, "bypass"@] + rest) == parsed(
            CliView { permission_mode: PermissionMode::Bypass, ..cli },
            rest,
        ),
        parsed(cli, seq!["--max-attempts"@, value] + rest) == parsed(
            CliView {
                max_attempts: match parsed_number(value, u32::MAX as nat) {
                    Some(n) => Some(n as u32),
                    None => None,
                },
                ..cli
            },
            rest,
        ),
{
    lemma_words();
    PermissionMode::law_wire_names();
    lemma_option(cli, "--provider"@, value, rest);
    lemma_option(cli, "--model"@, value, rest);
    lemma_option(cli, "--base-url"@, value, rest);
    lemma_option(cli, "--session"@, value, rest);
    lemma_option(cli, "--db"@, value, rest);
    lemma_option(cli, "--system"@, value, rest);
    lemma_option(cli, "--max-attempts"@, value, rest);
    lemma_option(cli, "--mode"@, "explore"@, rest);
    lemma_option(cli, "--mode"@, "ask"@, rest);
    lemma_option(cli, "--mode"@, "execute"@, rest);
    lemma_option(cli, "--mode"@, "bypass"@, rest);
}

proof fn lemma_option(cli: CliView, o: Seq<char>, v: Seq<char>, rest: Seq<Seq<char>>)
    ensures
        parsed(cli, seq![o, v] + rest) == (match with_option(cli, o, v) {
            Some(Ok(next)) => parsed(next, rest),
            Some(Err(e)) => Err(e),
            None => parsed(cli, seq![o, v] + rest),
        }),
{
    let args = seq![o, v] + rest;
    assert(args[0] == o && args[1] == v);
    assert(args.skip(2) =~= rest);
}

/// The words of the program, where no argument follows that an option could take: the
/// mode, the self-check, and else the prompt, if there is none yet.
pub proof fn law_words_say_what_they_are(cli: CliView, word: Seq<char>)
    ensures
        with_word(cli, "run"@) == (CliView { mode: Mode::Run, ..cli }),
        with_word(cli, "chat"@) == (CliView { mode: Mode::Chat, ..cli }),
        with_word(cli, "headless"@) == (CliView { mode: Mode::Headless, ..cli }),
        with_word(cli, "--self-check"@) == (CliView { self_check: true, ..cli }),
        word != "run"@ && word != "chat"@ && word != "headless"@ && word != "--self-check"@
            ==> with_word(cli, word) == (CliView {
            prompt: Some(
                match cli.prompt {
                    Some(p) => p,
                    None => word,
                },
            ),
            ..cli
        }),
        default_cli().provider == "fake"@,
        default_cli().mode is Run,
        default_cli().permission_mode is Ask,
        !default_cli().self_check,
        default_cli().model is None && default_cli().base_url is None && default_cli().session is None
            && default_cli().db is None && default_cli().system is None
            && default_cli().max_attempts is None,
{
    lemma_words();
}

/// A prompt is allowed by a `y` or a `Y`, with or without white space around it, and by
/// nothing else.
pub proof fn law_only_yes_allows(line: Option<String>, r: PermissionAnswer)
    requires
        call_ensures(answer_of_line, (line,), r),
    ensures
        r.decision is Allow <==> (line matches Some(s) && (trim(s@) == seq!['y'] || trim(s@) == seq![
            'Y',
        ])),
        !r.remember_for_turn,
{
    reveal_strlit("y");
    if let Some(s) = line {
        let t = trim(s@);
        if t == seq!['y'] || t == seq!['Y'] {
            assert(lower(t) =~= "y"@);
        }
        if lower(t) == "y"@ {
            assert(lower(t).len() == t.len() && "y"@.len() == 1);
            assert("y"@[0] == 'y');
            assert(lower(t)[0] == crate::text::lower_char(t[0]));
            assert(t[0] == 'y' || t[0] == 'Y');
            assert(t =~= seq!['y'] || t =~= seq!['Y']);
        }
    }
}

/// A chat line is what was typed before the line feeds that end it: they are all that is
/// left out, and it ends in none.
pub proof fn law_chat_lines_lose_only_line_feeds(line: Seq<char>)
    ensures
        ({
            let s = without_line_feeds(line);
            &&& s.is_prefix_of(line)
            &&& s.len() > 0 ==> s.last() != '\n'
            &&& forall|i: int| s.len() <= i < line.len() ==> #[trigger] line[i] == '\n'
        }),
    decreases line.len(),
{
    if line.len() > 0 && line.last() == '\n' {
        law_chat_lines_lose_only_line_feeds(line.drop_last());
        let s = without_line_feeds(line);
        assert(s =~= line.take(s.len() as int));
        assert forall|i: int| s.len() <= i < line.len() implies #[trigger] line[i] == '\n' by {
            if i < line.len() - 1 {
                assert(line.drop_last()[i] == '\n');
            }
        }
    } else {
        assert(line =~= line.take(line.len() as int));
    }
}

/// What the arguments of a daemon say, whatever was read before and follows behind.
pub proof fn law_daemon_arguments_say_what_they_are_named_for(
    a: HostArgsView,
    value: Seq<char>,
    rest: Seq<Seq<char>>,
)
    ensures
        host_parsed(a, seq!["--root"@, value] + rest) == host_parsed(
            HostArgsView { root: Some(value), ..a },
            rest,
        ),
        host_parsed(a, seq!["--provider"@, value] + rest) == host_parsed(
            HostArgsView { provider: value, ..a },
            rest,
        ),
        host_parsed(a, seq!["--expected-root-id"@, value] + rest) == host_parsed(a, rest),
        host_parsed(a, seq!["--idle-grace-ms"@, value] + rest) == (match parsed_number(
            value,
            u64::MAX as nat,
        ) {
            Some(n) => host_parsed(HostArgsView { idle_grace_ms: Some(n as u64), ..a }, rest),
            None => Err(HostArgsFault::InvalidIdleGrace(value)),
        }),
        host_parsed(a, seq![value]) == Err::<HostArgsView, HostArgsFault>(
            HostArgsFault::UnknownArgument(value),
        ),
        host_defaults().root is None && host_defaults().idle_grace_ms is None
            && host_defaults().provider == "fake"@,
{
    reveal_strlit("--root");
    reveal_strlit("--provider");
    reveal_strlit("--expected-root-id");
    reveal_strlit("--idle-grace-ms");
    assert("--root"@.len() == 6 && "--provider"@.len() == 10 && "--expected-root-id"@.len() == 18
        && "--idle-grace-ms"@.len() == 15);
    assert((seq!["--root"@, value] + rest).skip(2) =~= rest);
    assert((seq!["--provider"@, value] + rest).skip(2) =~= rest);
    assert((seq!["--expected-root-id"@, value] + rest).skip(2) =~= rest);
    assert((seq!["--idle-grace-ms"@, value] + rest).skip(2) =~= rest);
}

/// Which backend a command line gets: `aimux` and `openai` one that needs the OpenAI key,
/// `anthropic` one that needs a key or a token, and any other provider the fake one. What
/// is chosen comes before the environment, and that before the program's own.
pub proof fn law_backends_follow_the_settings(
    choice: ProviderChoice,
    env: ProviderEnv,
    default_model: Seq<char>,
)
    ensures
        ({
            let plan = cli_plan(choice, env, default_model);
            let p = choice.provider@;
            let url = |own: Seq<char>, from_env: Option<String>| match (choice.base_url, from_env) {
                (Some(u), _) => u@,
                (None, Some(u)) => u@,
                (None, None) => own,
            };
            let model = |own: Seq<char>| match choice.model {
                Some(m) => m@,
                None => own,
            };
            if p == "aimux"@ || p == "openai"@ {
                match env.openai_api_key {
                    None => plan == Err::<PlanView, MissingKey>(MissingKey::OpenAi),
                    Some(key) => plan == Ok::<PlanView, MissingKey>(
                        PlanView::OpenAi {
                            api_key: key@,
                            model: model("deepseek-v4-flash"@),
                            base_url: url("https://api.openai.com/v1"@, env.openai_base_url),
                        },
                    ),
                }
            } else if p == "anthropic"@ {
                if env.anthropic_api_key is None && env.anthropic_auth_token is None {
                    plan == Err::<PlanView, MissingKey>(MissingKey::Anthropic)
                } else {
                    plan == Ok::<PlanView, MissingKey>(
                        PlanView::Anthropic {
                            api_key: match env.anthropic_api_key {
                                Some(key) => key@,
                                None => ""@,
                            },
                            auth_token: match env.anthropic_auth_token {
                                Some(token) => Some(token@),
                                None => None,
                            },
                            model: model(default_model),
                            base_url: url("https://api.anthropic.com"@, env.anthropic_base_url),
                        },
                    )
                }
            } else {
                plan == Ok::<PlanView, MissingKey>(PlanView::Fake)
            }
        }),
{
    reveal_strlit("aimux");
    reveal_strlit("openai");
    reveal_strlit("anthropic");
    assert("aimux"@.len() == 5 && "openai"@.len() == 6 && "anthropic"@.len() == 9);
}

/// What a command line asks for, and what it works with where it does not say: a chat
/// needs no prompt; three attempts, and its own session and database.
pub proof fn law_command_lines_are_followed(
    cli: &Cli,
    action: CliAction,
    attempts: u32,
    session: String,
)
    requires
        call_ensures(cli_action, (cli,), action),
        call_ensures(attempts_allowed, (cli,), attempts),
        call_ensures(session_of, (cli,), session),
    ensures
        action is Chat <==> cli.mode is Chat,
        action matches CliAction::Run { prompt } ==> cli.mode is Run && cli.prompt is Some && prompt@
            == cli.prompt->0@,
        action matches CliAction::Headless { instruction } ==> cli.mode is Headless
            && cli.prompt is Some && instruction@ == cli.prompt->0@,
        action is Usage <==> !(cli.mode is Chat) && cli.prompt is None,
        attempts == (match cli.max_attempts {
            Some(n) => n,
            None => 3,
        }),
        session@ == (match cli.session {
            Some(s) => s@,
            None => "cli-session"@,
        }),
{
}

/// What an event puts on the terminal: the model's text as it is, the result of a tool
/// that did not fail, an error's message, and nothing else.
pub proof fn law_terminal_shows_the_event(e: &RuntimeEvent, r: LiveOutput)
    requires
        call_ensures(print_event_live, (e,), r),
    ensures
        r is Out <==> e@.role is Model && e@.content matches Some(ContentView::Text { .. }),
        r matches LiveOutput::Out(s) ==> (e@.content matches Some(ContentView::Text { text, .. })
            && s@ == text),
        e@.content matches Some(ContentView::Error { message, .. }) ==> (
        r matches LiveOutput::Diagnostic(s) && s@ == "[error] "@ + message),
        e@.content matches Some(ContentView::FunctionResponse { result, is_error, .. }) ==> (if is_error
            == Some(true) {
            r is Nothing
        } else {
            r matches LiveOutput::Diagnostic(s) && s@ == "[tool result] "@ + json_text(result)
        }),
{
}

/// The messages, ids and places that a run starts from: an unknown mode is shown as it was
/// given, a given system prompt and a given home are used, the provider is chosen as the
/// command line says, and task and run are named after the session.
pub proof fn law_runs_start_from_what_was_given(
    cli: &Cli,
    default: &str,
    system: String,
    choice: ProviderChoice,
    home: Option<String>,
    db: String,
    session_id: &str,
    ids: (String, String),
    root: &str,
    socket: String,
    mode: &str,
    message: String,
)
    requires
        call_ensures(resolve_system, (cli, default), system),
        call_ensures(provider_choice, (cli,), choice),
        call_ensures(default_db, (home,), db),
        call_ensures(headless_ids, (session_id,), ids),
        call_ensures(socket_path, (root,), socket),
        call_ensures(unknown_mode_message, (mode,), message),
    ensures
        cli@.system is Some ==> system@ == cli@.system->0,
        cli@.system is None ==> system@ == default@,
        choice.provider@ == cli@.provider,
        opt(choice.model) == cli@.model,
        opt(choice.base_url) == cli@.base_url,
        home matches Some(h) ==> db@ == h@ + "/.meepo/runtime.sqlite"@,
        home is None ==> db@ == "."@ + "/.meepo/runtime.sqlite"@,
        ids.0@ == "task-"@ + session_id@,
        ids.1@ == "headless-"@ + session_id@,
        socket@ == root@ + "/host.sock"@,
        message@ == "unknown --mode '"@ + mode@ + "'; use explore|ask|execute|bypass"@,
{
}

/// A missing key is named by the settings that would give it.
pub proof fn law_missing_keys_are_named(missing: MissingKey, r: &'static str)
    requires
        call_ensures(missing_key_message, (missing,), r),
    ensures
        missing is OpenAi ==> r@ == "OPENAI_API_KEY is not set"@,
        missing is Anthropic ==> r@ == "ANTHROPIC_API_KEY or ANTHROPIC_AUTH_TOKEN is not set"@,
{
}

/// The daemon says which argument it does not take, and how it is used.
pub proof fn law_daemon_faults_have_messages(e: &HostArgsError, r: String)
    requires
        call_ensures(HostArgsError::message, (e,), r),
    ensures
        *e matches HostArgsError::InvalidIdleGrace(s) ==> r@
            == "meepo-host: invalid --idle-grace-ms '"@ + s@ + "'"@,
        *e matches HostArgsError::UnknownArgument(s) ==> r@ == "meepo-host: unknown argument '"@ + s@
            + "'"@,
        e is RootRequired ==> r@ == "meepo-host: --root is required"@,
{
}

} // verus!
