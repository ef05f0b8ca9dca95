//! The client's view of a connection, the election, registration records and the
//! command lines.

use meepo::backend::{AgentBackend, BackendSendInput, FakeBackend};
use meepo::cli::{
    answer_of_line, attempts_allowed, build_backend, chat_line, cli_action, default_db,
    fake_script, headless_ids, missing_key_message, parse_cli, parse_host_args, print_event_live,
    provider_choice, resolve_system, session_of, socket_path, unknown_mode_message, CliAction,
    HostArgsError, LiveOutput, Mode, RUN_USAGE,
};
use meepo::client::connect_or_spawn::{
    Election, ElectionAction, ElectionEvent, DEFAULT_ELECTION_DEADLINE_MS,
};
use meepo::client::connection::{
    handshake_reply, opening_frame, streamed_frame, ClientError, HostClient, Progress,
};
use meepo::interaction::PermissionDecision;
use meepo::json::Json;
use meepo::permission::PermissionMode;
use meepo::protocol::envelope::{RequestFrame, ResponseFrame};
use meepo::protocol::errors::{OpErrorCode, OperationError};
use meepo::protocol::handshake::{
    AcceptedFrame, DrainingFrame, HandshakeSurface, LifecycleState,
};
use meepo::runtime_event::{Author, Content, Role, RuntimeEvent};
use meepo::server::provider_factory::{
    daemon_backend_factory, daemon_warning, fake_backend, needs_gate, prompt_context, BackendPlan,
    MissingKey, ProviderChoice, ProviderEnv,
};
use meepo::server::registration::{
    control_dir, may_remove, offered_endpoint, owner_lock_path, registration_path,
    registration_temp_path, root_id_of, HostRegistration,
};
use meepo::session_event::SessionEvent;

fn json(text: &str) -> Json {
    Json::parse(text).expect("valid json")
}

fn strings(args: &[&str]) -> Vec<String> {
    args.iter().map(|s| s.to_string()).collect()
}

fn registration(epoch: &str, state: LifecycleState) -> HostRegistration {
    HostRegistration::new("/root/id", epoch, "/root/host.sock", state, 42, 1_700_000_000)
}

fn read_registration(text: &str) -> Option<HostRegistration> {
    HostRegistration::from_json(&Json::parse(text).ok()?)
}

#[test]
fn registration_round_trips() {
    let reg = registration("epoch-1", LifecycleState::Ready);
    let text = reg.to_text();
    let back = read_registration(&text).expect("registration present");
    assert_eq!(back, reg);
    assert_eq!(back.kind, "meepo-runtime-host");
    // closed schema: unknown key rejected on read.
    let tampered = text.replace("\"pid\":", "\"stray\":1,\"pid\":");
    assert!(read_registration(&tampered).is_none(), "unknown key must reject");
    assert!(read_registration("{").is_none());
}

#[test]
fn registration_text_is_in_declaration_order() {
    let reg = registration("epoch-1", LifecycleState::Ready);
    assert_eq!(
        reg.to_text(),
        format!(
            r#"{{"kind":"meepo-runtime-host","schemaVersion":{},"rootId":"/root/id","hostEpoch":"epoch-1","endpoint":"/root/host.sock","protocolMin":{},"protocolMax":{},"compatibilityEpoch":{},"state":"ready","pid":42,"createdAt":1700000000}}"#,
            reg.schema_version, reg.protocol_min, reg.protocol_max, reg.compatibility_epoch
        )
    );
    // A list gives the members in that order; all of them must be there.
    let listed = r#"["k",1,"r","e","s",0,1,2,{"ready":null},42,7]"#;
    let back = read_registration(listed).expect("a list of members");
    assert_eq!((back.kind.as_str(), back.pid, back.created_at), ("k", 42, 7));
    assert_eq!(back.state, LifecycleState::Ready);
    assert!(read_registration(r#"["k",1,"r","e","s",0,1,2,"ready",42]"#).is_none());
    assert!(read_registration(r#"["k",1,"r","e","s",0,1,2,"ready",42,7,8]"#).is_none());
}

#[test]
fn remove_registration_only_when_epoch_matches() {
    let found = Some(registration("epoch-1", LifecycleState::Ready));
    // A stale epoch does not remove it.
    assert!(!may_remove(&found, "epoch-other"));
    // The owning epoch removes it.
    assert!(may_remove(&found, "epoch-1"));
    assert!(!may_remove(&None, "epoch-1"));
}

#[test]
fn control_paths() {
    assert_eq!(control_dir("/r"), "/r/control");
    assert_eq!(control_dir("/r/"), "/r/control");
    assert_eq!(control_dir(""), "control");
    assert_eq!(registration_path("/r"), "/r/control/registration.json");
    assert_eq!(owner_lock_path("/r"), "/r/control/owner.lock");
    assert_eq!(registration_temp_path("/r", 7), "/r/control/registration.json.tmp.7");
    for root in ["/r", "/r/", "", "a/b"] {
        let expected = std::path::Path::new(root).join("control").join("registration.json");
        assert_eq!(registration_path(root), expected.to_str().unwrap());
    }
    assert_eq!(root_id_of("r", Some("/abs/r".into())), "/abs/r");
    assert_eq!(root_id_of("r", None), "r");
    assert_eq!(socket_path("/r"), "/r/host.sock");
}

#[test]
fn connect_or_spawn_launches_then_connects() {
    let mut election = Election::new(5_000);
    // Nothing is registered: a candidate is launched and polled for.
    assert_eq!(election.next(ElectionEvent::Registration(None)), ElectionAction::Launch);
    assert_eq!(election.next(ElectionEvent::Launched), ElectionAction::Pause(20));
    assert_eq!(election.next(ElectionEvent::Paused), ElectionAction::Read);
    assert_eq!(election.next(ElectionEvent::Registration(None)), ElectionAction::Clock);
    assert_eq!(election.next(ElectionEvent::Elapsed(20)), ElectionAction::Pause(40));
    assert_eq!(election.next(ElectionEvent::Paused), ElectionAction::Read);
    let reg = registration("epoch-cos", LifecycleState::Ready);
    assert_eq!(
        election.next(ElectionEvent::Registration(Some(reg))),
        ElectionAction::Connect("/root/host.sock".into())
    );
}

#[test]
fn election_backs_off_and_gives_up() {
    let mut election = Election::new(1_000);
    let draining = registration("e", LifecycleState::Draining);
    assert_eq!(offered_endpoint(&Some(draining.clone())), None);
    assert_eq!(election.next(ElectionEvent::Registration(Some(draining))), ElectionAction::Launch);
    election.next(ElectionEvent::Launched);
    let mut pauses = Vec::new();
    for _ in 0..6 {
        election.next(ElectionEvent::Paused);
        assert_eq!(election.next(ElectionEvent::ConnectFailed), ElectionAction::Clock);
        match election.next(ElectionEvent::Elapsed(999)) {
            ElectionAction::Pause(ms) => pauses.push(ms),
            other => panic!("expected a pause, got {other:?}"),
        }
    }
    assert_eq!(pauses, vec![40, 80, 160, 250, 250, 250]);
    assert_eq!(election.next(ElectionEvent::Elapsed(1_000)), ElectionAction::GiveUp);
    assert_eq!(DEFAULT_ELECTION_DEADLINE_MS, 45_000);
}

#[test]
fn handshake_replies_are_told_apart() {
    let accepted = AcceptedFrame::new("epoch", "c", 0, 10, LifecycleState::Ready);
    assert_eq!(handshake_reply(accepted.to_json()).unwrap(), "epoch");
    match handshake_reply(DrainingFrame::new("e").to_json()) {
        Err(ClientError::Handshake(m)) => assert_eq!(m, "host draining"),
        other => panic!("unexpected {other:?}"),
    }
    match handshake_reply(json(r#"{"kind":"subscription.x"}"#)) {
        Err(ClientError::Handshake(m)) => assert_eq!(m, "unexpected handshake reply"),
        other => panic!("unexpected {other:?}"),
    }
    assert!(matches!(handshake_reply(Json::Null), Err(ClientError::Protocol(_))));
    let hello = opening_frame();
    assert_eq!(hello.surface, HandshakeSurface::Run);
    assert_eq!(hello.client_instance_id.len(), 36);
}

fn expect_done(p: Progress) -> Result<Json, ClientError> {
    match p {
        Progress::Done(r) => r,
        Progress::Pending => panic!("still pending"),
    }
}

#[test]
fn requests_settle_on_their_own_response() {
    let mut client = HostClient::new();
    let req: RequestFrame = client.request("host.status", json("{}"));
    let push = json(r#"{"kind":"subscription.session_delta","sequence":1}"#);
    let push2 = json(r#"{"kind":"subscription.session_delta","sequence":2}"#);
    assert!(matches!(client.receive(&req, push.clone()), Progress::Pending));
    let stray = ResponseFrame::ok("other", "x", json("1")).to_json();
    assert!(matches!(client.receive(&req, stray), Progress::Pending));
    assert!(matches!(client.receive(&req, push2.clone()), Progress::Pending));
    let own = ResponseFrame::ok(&req.request_id, "host.status", json("[1]")).to_json();
    assert_eq!(expect_done(client.receive(&req, own)).unwrap(), json("[1]"));
    assert_eq!(client.take_streamed(), vec![push.clone(), push2]);
    assert!(client.take_streamed().is_empty());
    assert_eq!(streamed_frame(push.clone()), Some(push));
    assert_eq!(streamed_frame(json("{}")), None);

    let refused = ResponseFrame::err(
        &req.request_id,
        "host.status",
        OperationError::new(OpErrorCode::SessionBusy, "busy"),
    );
    match expect_done(client.receive(&req, refused.to_json())) {
        Err(ClientError::Operation { operation, code, message }) => {
            assert_eq!(operation, "host.status");
            assert_eq!(code, OpErrorCode::SessionBusy);
            assert_eq!(message, "busy");
        }
        other => panic!("unexpected {other:?}"),
    }
    let null = ResponseFrame::ok(&req.request_id, "host.status", Json::Null).to_json();
    match expect_done(client.receive(&req, null)) {
        Err(ClientError::Handshake(m)) => assert_eq!(m, "ok response without result"),
        other => panic!("unexpected {other:?}"),
    }
    assert!(matches!(
        expect_done(client.receive(&req, json("3"))),
        Err(ClientError::Protocol(_))
    ));
}

fn env() -> ProviderEnv {
    ProviderEnv {
        openai_api_key: None,
        openai_base_url: None,
        anthropic_api_key: None,
        anthropic_auth_token: None,
        anthropic_base_url: None,
    }
}

fn choice(provider: &str) -> ProviderChoice {
    ProviderChoice { provider: provider.into(), model: None, base_url: None }
}

#[test]
fn providers_need_their_keys() {
    assert_eq!(daemon_backend_factory(&choice("fake"), &env(), "m-default"), (BackendPlan::Fake, None));
    assert_eq!(
        daemon_backend_factory(&choice("openai"), &env(), "m-default"),
        (BackendPlan::Fake, Some(MissingKey::OpenAi))
    );
    assert_eq!(
        daemon_backend_factory(&choice("anthropic"), &env(), "m-default"),
        (BackendPlan::Fake, Some(MissingKey::Anthropic))
    );
    assert_eq!(build_backend(&choice("aimux"), &env(), "m-default"), Err(MissingKey::OpenAi));
    assert_eq!(build_backend(&choice("anything"), &env(), "m-default"), Ok(BackendPlan::Fake));
    let mut keyed = env();
    keyed.openai_api_key = Some("k".into());
    keyed.anthropic_auth_token = Some("t".into());
    keyed.anthropic_base_url = Some("https://proxy".into());
    assert_eq!(
        build_backend(&choice("openai"), &keyed, "m-default"),
        Ok(BackendPlan::OpenAi {
            api_key: "k".into(),
            model: "deepseek-v4-flash".into(),
            base_url: "https://api.openai.com/v1".into(),
        })
    );
    assert_eq!(
        daemon_backend_factory(
            &ProviderChoice {
                provider: "anthropic".into(),
                model: Some("m".into()),
                base_url: None,
            },
            &keyed,
            "m-default"
        ),
        (
            BackendPlan::Anthropic {
                api_key: "".into(),
                auth_token: Some("t".into()),
                model: "m".into(),
                base_url: "https://proxy".into(),
            },
            None
        )
    );
    assert_eq!(
        build_backend(&choice("anthropic"), &keyed, "m-default"),
        Ok(BackendPlan::Anthropic {
            api_key: "".into(),
            auth_token: Some("t".into()),
            model: "m-default".into(),
            base_url: "https://proxy".into(),
        })
    );
    assert_eq!(missing_key_message(MissingKey::OpenAi), "OPENAI_API_KEY is not set");
    assert!(daemon_warning(MissingKey::Anthropic).contains("falling back to the fake backend"));
    assert!(!needs_gate(PermissionMode::Bypass));
    assert!(needs_gate(PermissionMode::Explore));
    assert_eq!(prompt_context("s").run_id, "");
}

fn empty_input() -> BackendSendInput {
    BackendSendInput {
        turn_id: "t".into(),
        run_id: None,
        invocation_id: None,
        max_steps: None,
        messages: vec![],
        system_prompt: None,
        tools: vec![],
    }
}

fn spoken(events: &[SessionEvent]) -> String {
    events
        .iter()
        .filter_map(|e| match e {
            SessionEvent::TextComplete { text, .. } => Some(text.as_str()),
            _ => None,
        })
        .collect()
}

#[test]
fn run_subcommand_echoes_prompt() {
    let cli = parse_cli(&strings(&["run", "hello"])).unwrap();
    match cli_action(&cli) {
        CliAction::Run { prompt } => {
            assert_eq!(build_backend(&provider_choice(&cli), &env(), "m-default"), Ok(BackendPlan::Fake));
            let mut backend = FakeBackend::new(&session_of(&cli), fake_script(&prompt));
            let out = spoken(&backend.send(&empty_input()));
            assert!(out.contains("meepo (fake backend): hello"), "out was: {out}");
        }
        other => panic!("unexpected {other:?}"),
    }
}

#[test]
fn bare_prompt_also_works() {
    let cli = parse_cli(&strings(&["hi"])).unwrap();
    match cli_action(&cli) {
        CliAction::Run { prompt } => {
            let out = spoken(&fake_script(&prompt));
            assert!(out.contains("meepo (fake backend): hi"), "out was: {out}");
        }
        other => panic!("unexpected {other:?}"),
    }
}

#[test]
fn no_args_exits_nonzero() {
    let cli = parse_cli(&strings(&[])).unwrap();
    assert_eq!(cli_action(&cli), CliAction::Usage(RUN_USAGE), "no prompt is a usage error");
}

#[test]
fn options_are_read() {
    let cli = parse_cli(&strings(&[
        "headless", "--provider", "openai", "--model", "m", "--base-url", "u", "--session", "s",
        "--db", "d", "--system", "sys", "--mode", "execute", "--max-attempts", "5",
        "--self-check", "do it", "ignored",
    ]))
    .unwrap();
    assert_eq!(cli.mode, Mode::Headless);
    assert_eq!(cli.provider, "openai");
    assert_eq!(cli.model.as_deref(), Some("m"));
    assert_eq!(cli.base_url.as_deref(), Some("u"));
    assert_eq!(cli.session.as_deref(), Some("s"));
    assert_eq!(cli.db.as_deref(), Some("d"));
    assert_eq!(cli.permission_mode, PermissionMode::Execute);
    assert_eq!(cli.max_attempts, Some(5));
    assert!(cli.self_check);
    assert_eq!(cli.prompt.as_deref(), Some("do it"));
    assert_eq!(session_of(&cli), "s");
    assert_eq!(resolve_system(&cli, "default"), "sys");
    assert_eq!(attempts_allowed(&cli), 5);
    assert_eq!(headless_ids("s"), ("task-s".to_string(), "headless-s".to_string()));

    // An option without its value is a word; an unreadable number is none.
    let cli = parse_cli(&strings(&["--max-attempts", "x", "--model"])).unwrap();
    assert_eq!(cli.max_attempts, None);
    assert_eq!(cli.prompt.as_deref(), Some("--model"));
    assert_eq!(attempts_allowed(&cli), 3);
    assert_eq!(session_of(&cli), "cli-session");
    assert_eq!(resolve_system(&cli, "default"), "default");

    assert_eq!(parse_cli(&strings(&["--mode", "yolo"])).unwrap_err(), "yolo");
    assert_eq!(
        unknown_mode_message("yolo"),
        "unknown --mode 'yolo'; use explore|ask|execute|bypass"
    );
    assert_eq!(default_db(Some("/h".into())), "/h/.meepo/runtime.sqlite");
    assert_eq!(default_db(None), "./.meepo/runtime.sqlite");
}

#[test]
fn daemon_arguments_are_read() {
    let a = parse_host_args(&strings(&[
        "--root", "/r", "--provider", "fake", "--idle-grace-ms", "60000",
        "--expected-root-id", "x",
    ]))
    .unwrap();
    assert_eq!(a.root, "/r");
    assert_eq!(a.provider, "fake");
    assert_eq!(a.idle_grace_ms, Some(60000));
    assert_eq!(parse_host_args(&strings(&[])), Err(HostArgsError::RootRequired));
    let e = parse_host_args(&strings(&["--root", "/r", "--idle-grace-ms", "soon"])).unwrap_err();
    assert_eq!(e.message(), "meepo-host: invalid --idle-grace-ms 'soon'");
    let e = parse_host_args(&strings(&["--root"])).unwrap_err();
    assert_eq!(e, HostArgsError::UnknownArgument("--root".into()));
    assert_eq!(e.message(), "meepo-host: unknown argument '--root'");
}

#[test]
fn typed_lines_are_read() {
    assert_eq!(answer_of_line(Some(" Y \n".into())).decision, PermissionDecision::Allow);
    assert_eq!(answer_of_line(Some("y".into())).decision, PermissionDecision::Allow);
    assert_eq!(answer_of_line(Some("yes".into())).decision, PermissionDecision::Deny);
    assert_eq!(answer_of_line(Some("".into())).decision, PermissionDecision::Deny);
    assert_eq!(answer_of_line(None).decision, PermissionDecision::Deny);
    assert_eq!(chat_line("hello\n").as_deref(), Some("hello"));
    assert_eq!(chat_line("a b\n\n").as_deref(), Some("a b"));
    assert_eq!(chat_line("\n"), None);
    assert_eq!(chat_line(""), None);
}

fn event(role: Role, content: Content) -> RuntimeEvent {
    RuntimeEvent {
        session_id: "s".into(),
        invocation_id: "i".into(),
        run_id: "r".into(),
        turn_id: "t".into(),
        branch: None,
        id: "e".into(),
        ts: 0,
        role,
        author: Author::Agent,
        origin: None,
        model_visibility: None,
        status: None,
        content: Some(content),
        actions: None,
        refs: None,
        partial: None,
    }
}

#[test]
fn events_are_shown_live() {
    let text = Content::Text { text: "hi".into(), provider_options: None, steering: None };
    assert_eq!(print_event_live(&event(Role::Model, text.clone())), LiveOutput::Out("hi".into()));
    assert_eq!(print_event_live(&event(Role::User, text)), LiveOutput::Nothing);
    let response = |is_error| Content::FunctionResponse {
        id: "c".into(),
        name: "n".into(),
        result: json(r#"{"a":1}"#),
        is_error,
        provider_executed: None,
        provider_output: None,
    };
    assert_eq!(
        print_event_live(&event(Role::Tool, response(None))),
        LiveOutput::Diagnostic("[tool result] {\"a\":1}".into())
    );
    assert_eq!(print_event_live(&event(Role::Tool, response(Some(true)))), LiveOutput::Nothing);
    let error =
        Content::Error { message: "boom".into(), code: None, reason: None, details: None };
    assert_eq!(
        print_event_live(&event(Role::System, error)),
        LiveOutput::Diagnostic("[error] boom".into())
    );
}

#[test]
fn keyless_daemon_speaks_through_the_fake() {
    let mut backend = fake_backend("s");
    assert_eq!(spoken(&backend.send(&empty_input())), "meepo (fake backend)");
}
