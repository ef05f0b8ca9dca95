//! Which backend a turn gets, from provider configuration: an OpenAI or Anthropic
//! provider where the keys are there, or a scripted fake (so that a keyless daemon
//! still boots).

use crate::backend::session_event_views;
use crate::backend::FakeBackend;
use crate::json::opt;
use crate::permission::PermissionMode;
use crate::schema::clone_opt_text;
use crate::session_event::SessionEvent;
use crate::session_event::SessionEventView;
use crate::session_event::StopReason;
use crate::server::interaction::InteractionContext;
use crate::text::str_eq;
use vstd::prelude::*;

verus! {

pub const DEFAULT_OPENAI_MODEL: &'static str = "deepseek-v4-flash";

pub const OPENAI_URL: &'static str = "https://api.openai.com/v1";

pub const ANTHROPIC_URL: &'static str = "https://api.anthropic.com";

/// The provider settings of the process environment.
#[derive(Debug)]
pub struct ProviderEnv {
    pub openai_api_key: Option<String>,
    pub openai_base_url: Option<String>,
    pub anthropic_api_key: Option<String>,
    pub anthropic_auth_token: Option<String>,
    pub anthropic_base_url: Option<String>,
}

/// What the caller configured.
#[derive(Debug)]
pub struct ProviderChoice {
    pub provider: String,
    pub model: Option<String>,
    pub base_url: Option<String>,
}

/// The backend to build.
#[derive(Debug, PartialEq)]
pub enum BackendPlan {
    Fake,
    OpenAi { api_key: String, model: String, base_url: String },
    Anthropic {
        api_key: String,
        auth_token: Option<String>,
        model: String,
        base_url: String,
    },
}

/// What a [`BackendPlan`] says.
pub enum PlanView {
    Fake,
    OpenAi { api_key: Seq<char>, model: Seq<char>, base_url: Seq<char> },
    Anthropic {
        api_key: Seq<char>,
        auth_token: Option<Seq<char>>,
        model: Seq<char>,
        base_url: Seq<char>,
    },
}

impl View for BackendPlan {
    type V = PlanView;

    open spec fn view(&self) -> PlanView {
        match *self {
            BackendPlan::Fake => PlanView::Fake,
            BackendPlan::OpenAi { api_key, model, base_url } => PlanView::OpenAi {
                api_key: api_key@,
                model: model@,
                base_url: base_url@,
            },
            BackendPlan::Anthropic { api_key, auth_token, model, base_url } => PlanView::Anthropic {
                api_key: api_key@,
                auth_token: opt(auth_token),
                model: model@,
                base_url: base_url@,
            },
        }
    }
}

/// Why a provider cannot be used.
#[derive(Debug, Clone, Copy, PartialEq, Eq, Structural)]
pub enum MissingKey {
    OpenAi,
    Anthropic,
}

/// The first of two texts that is there, or the last resort.
pub open spec fn first_of(a: Option<String>, b: Option<String>, otherwise: Seq<char>) -> Seq<char> {
    match (a, b) {
        (Some(x), _) => x@,
        (None, Some(y)) => y@,
        (None, None) => otherwise,
    }
}

fn pick(a: &Option<String>, b: &Option<String>, otherwise: &str) -> (r: String)
    ensures
        r@ == first_of(*a, *b, otherwise@),
{
    match (a, b) {
        (Some(x), _) => x.clone(),
        (None, Some(y)) => y.clone(),
        (None, None) => otherwise.to_owned(),
    }
}

/// The OpenAI backend that the settings make, if there is a key.
pub open spec fn openai_plan(choice: ProviderChoice, env: ProviderEnv) -> Result<
    PlanView,
    MissingKey,
> {
    match env.openai_api_key {
        None => Err(MissingKey::OpenAi),
        Some(key) => Ok(
            PlanView::OpenAi {
                api_key: key@,
                model: first_of(choice.model, None, DEFAULT_OPENAI_MODEL@),
                base_url: first_of(choice.base_url, env.openai_base_url, OPENAI_URL@),
            },
        ),
    }
}

/// The Anthropic backend that the settings make, if there is a key or a token;
/// `default_model` is the model where none is chosen.
pub open spec fn anthropic_plan(
    choice: ProviderChoice,
    env: ProviderEnv,
    default_model: Seq<char>,
) -> Result<PlanView, MissingKey> {
    if env.anthropic_api_key is None && env.anthropic_auth_token is None {
        Err(MissingKey::Anthropic)
    } else {
        Ok(
            PlanView::Anthropic {
                api_key: first_of(env.anthropic_api_key, None, ""@),
                auth_token: opt(env.anthropic_auth_token),
                model: first_of(choice.model, None, default_model),
                base_url: first_of(choice.base_url, env.anthropic_base_url, ANTHROPIC_URL@),
            },
        )
    }
}

/// The OpenAI backend that the settings make.
pub fn plan_openai(choice: &ProviderChoice, env: &ProviderEnv) -> (r: Result<
    BackendPlan,
    MissingKey,
>)
    ensures
        match r {
            Ok(plan) => openai_plan(*choice, *env) == Ok::<PlanView, MissingKey>(plan@),
            Err(e) => openai_plan(*choice, *env) == Err::<PlanView, MissingKey>(e),
        },
{
    match &env.openai_api_key {
        None => Err(MissingKey::OpenAi),
        Some(key) => Ok(
            BackendPlan::OpenAi {
                api_key: key.clone(),
                model: pick(&choice.model, &None, DEFAULT_OPENAI_MODEL),
                base_url: pick(&choice.base_url, &env.openai_base_url, OPENAI_URL),
            },
        ),
    }
}

/// The Anthropic backend that the settings make.
pub fn plan_anthropic(choice: &ProviderChoice, env: &ProviderEnv, default_model: &str) -> (r: Result<
    BackendPlan,
    MissingKey,
>)
    ensures
        match r {
            Ok(plan) => anthropic_plan(*choice, *env, default_model@) == Ok::<PlanView, MissingKey>(
                plan@,
            ),
            Err(e) => anthropic_plan(*choice, *env, default_model@) == Err::<PlanView, MissingKey>(
                e,
            ),
        },
{
    if env.anthropic_api_key.is_none() && env.anthropic_auth_token.is_none() {
        return Err(MissingKey::Anthropic);
    }
    Ok(
        BackendPlan::Anthropic {
            api_key: pick(&env.anthropic_api_key, &None, ""),
            auth_token: clone_opt_text(&env.anthropic_auth_token),
            model: pick(&choice.model, &None, default_model),
            base_url: pick(&choice.base_url, &env.anthropic_base_url, ANTHROPIC_URL),
        },
    )
}

/// The daemon's backend: a missing key falls back to the fake one, with a warning.
pub open spec fn daemon_plan(
    choice: ProviderChoice,
    env: ProviderEnv,
    default_anthropic_model: Seq<char>,
) -> (PlanView, Option<MissingKey>) {
    let wanted = if choice.provider@ == "openai"@ {
        openai_plan(choice, env)
    } else if choice.provider@ == "anthropic"@ {
        anthropic_plan(choice, env, default_anthropic_model)
    } else {
        Ok(PlanView::Fake)
    };
    match wanted {
        Ok(plan) => (plan, None),
        Err(missing) => (PlanView::Fake, Some(missing)),
    }
}

/// The daemon's backend for a turn, and what to warn about. The Anthropic model where
/// none is chosen is the program's to say.
pub fn daemon_backend_factory(
    choice: &ProviderChoice,
    env: &ProviderEnv,
    default_anthropic_model: &str,
) -> (r: (BackendPlan, Option<MissingKey>))
    ensures
        (r.0@, r.1) == daemon_plan(*choice, *env, default_anthropic_model@),
{
    let wanted = if str_eq(choice.provider.as_str(), "openai") {
        plan_openai(choice, env)
    } else if str_eq(choice.provider.as_str(), "anthropic") {
        plan_anthropic(choice, env, default_anthropic_model)
    } else {
        Ok(BackendPlan::Fake)
    };
    match wanted {
        Ok(plan) => (plan, None),
        Err(missing) => (BackendPlan::Fake, Some(missing)),
    }
}

/// A daemon always gets a backend, and a provider without its keys never one of
/// the provider's.
pub proof fn law_keyless_daemon_boots(
    choice: ProviderChoice,
    env: ProviderEnv,
    model: Seq<char>,
)
    ensures
        daemon_plan(choice, env, model).1 is Some ==> daemon_plan(choice, env, model).0 is Fake,
        daemon_plan(choice, env, model).0 is OpenAi ==> env.openai_api_key is Some,
        daemon_plan(choice, env, model).0 is Anthropic ==> env.anthropic_api_key is Some
            || env.anthropic_auth_token is Some,
{
}

/// What the daemon says about a missing key.
pub fn daemon_warning(missing: MissingKey) -> (r: &'static str)
    ensures
        r@ == match missing {
            MissingKey::OpenAi => "[meepo-host] OPENAI_API_KEY not set; falling back to the fake backend"@,
            MissingKey::Anthropic => "[meepo-host] ANTHROPIC_API_KEY/AUTH_TOKEN not set; falling back to the fake backend"@,
        },
{
    match missing {
        MissingKey::OpenAi => "[meepo-host] OPENAI_API_KEY not set; falling back to the fake backend",
        MissingKey::Anthropic => "[meepo-host] ANTHROPIC_API_KEY/AUTH_TOKEN not set; falling back to the fake backend",
    }
}

/// Whether tool calls go through a permission gate: under Bypass there is none.
pub fn needs_gate(mode: PermissionMode) -> (r: bool)
    ensures
        r == !(mode is Bypass),
{
    !matches!(mode, PermissionMode::Bypass)
}

/// Where a daemon's permission prompts arise: the factory does not know the
/// per-turn ids, so the record is session-scoped.
pub fn prompt_context(session_id: &str) -> (r: InteractionContext)
    ensures
        r.session_id@ == session_id@,
        r.run_id@.len() == 0,
        r.turn_id@.len() == 0,
{
    InteractionContext {
        session_id: session_id.to_owned(),
        run_id: String::new(),
        turn_id: String::new(),
    }
}

/// A step that says `text` and completes.
pub open spec fn scripted(text: Seq<char>) -> Seq<SessionEventView> {
    seq![
        SessionEventView::TextComplete {
            id: "1"@,
            turn_id: "t"@,
            ts: 0,
            message_id: "m"@,
            text,
            provider_options: None,
        },
        SessionEventView::Complete {
            id: "2"@,
            turn_id: "t"@,
            ts: 1,
            stop_reason: StopReason::EndTurn,
        },
    ]
}

/// A step that says `text` and completes.
pub fn script(text: &str) -> (r: Vec<SessionEvent>)
    ensures
        session_event_views(r@) == scripted(text@),
{
    let mut out: Vec<SessionEvent> = Vec::new();
    out.push(
        SessionEvent::TextComplete {
            id: "1".to_owned(),
            turn_id: "t".to_owned(),
            ts: 0,
            message_id: "m".to_owned(),
            text: text.to_owned(),
            provider_options: None,
        },
    );
    out.push(
        SessionEvent::Complete {
            id: "2".to_owned(),
            turn_id: "t".to_owned(),
            ts: 1,
            stop_reason: StopReason::EndTurn,
        },
    );
    assert(session_event_views(out@) =~= scripted(text@));
    out
}

/// The scripted backend of a keyless daemon.
pub fn fake_backend(session_id: &str) -> (r: FakeBackend)
    ensures
        r.session() == session_id@,
        r.script() == seq![scripted("meepo (fake backend)"@)],
        r.calls() == 0,
{
    FakeBackend::new(session_id, script("meepo (fake backend)"))
}

/// A daemon gets the backend that the same settings give a command line, where its
/// provider is one that a daemon knows, and the fake one, with what is missing, where a
/// key is.
pub proof fn law_daemons_fall_back(choice: ProviderChoice, env: ProviderEnv, model: Seq<char>)
    ensures
        ({
            let wanted = crate::cli::cli_plan(choice, env, model);
            let known = choice.provider@ == "openai"@ || choice.provider@ == "anthropic"@;
            daemon_plan(choice, env, model) == (if !known {
                (PlanView::Fake, None)
            } else {
                match wanted {
                    Ok(plan) => (plan, None),
                    Err(missing) => (PlanView::Fake, Some(missing)),
                }
            })
        }),
{
    reveal_strlit("aimux");
    reveal_strlit("openai");
    reveal_strlit("anthropic");
    assert("aimux"@.len() == 5 && "openai"@.len() == 6 && "anthropic"@.len() == 9);
}

/// The fake backend says the text that it was given, and completes its turn.
pub proof fn law_scripts_say_their_text(text: Seq<char>)
    ensures
        scripted(text).len() == 2,
        scripted(text)[0] matches SessionEventView::TextComplete { text: said, .. } && said == text,
        scripted(text)[1] matches SessionEventView::Complete { stop_reason, .. }
            && stop_reason is EndTurn,
        scripted(text)[0] matches SessionEventView::TextComplete {
            id,
            turn_id,
            ts,
            message_id,
            provider_options,
            ..
        } && id == "1"@ && turn_id == "t"@ && ts == 0 && message_id == "m"@ && provider_options is None,
        scripted(text)[1] matches SessionEventView::Complete { id, turn_id, ts, .. } && id == "2"@
            && turn_id == "t"@ && ts == 1,
{
}

/// A prompt is asked for in every mode but Bypass.
pub proof fn law_only_bypass_needs_no_gate(mode: PermissionMode, r: bool)
    requires
        call_ensures(needs_gate, (mode,), r),
    ensures
        !r <==> mode is Bypass,
{
}

/// A daemon without a key warns of that key, and a prompt belongs to its session alone.
pub proof fn law_daemons_warn_of_the_missing_key(
    missing: MissingKey,
    warning: &'static str,
    session_id: &str,
    context: InteractionContext,
)
    requires
        call_ensures(daemon_warning, (missing,), warning),
        call_ensures(prompt_context, (session_id,), context),
    ensures
        missing is OpenAi ==> warning@
            == "[meepo-host] OPENAI_API_KEY not set; falling back to the fake backend"@,
        missing is Anthropic ==> warning@
            == "[meepo-host] ANTHROPIC_API_KEY/AUTH_TOKEN not set; falling back to the fake backend"@,
        context.session_id@ == session_id@,
        context.run_id@ == Seq::<char>::empty(),
        context.turn_id@ == Seq::<char>::empty(),
{
}

} // verus!
