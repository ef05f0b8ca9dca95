//! Tool categories, the policy matrix, shell categorization and the permission gate.

use std::cell::Cell;

use meepo::interaction::{
    DefaultPermissionGate, PermissionAnswer, PermissionDecision, PermissionGate,
    PermissionPrompter, PermissionReason, PermissionRequest, PermissionVerdict,
};
use meepo::json::Json;
use meepo::permission::{
    builtin_tool_category, categorize_bash, category_of_findings, classify_tool_use,
    policy_decision, strip_leading_options, unwrap_payload, PermissionMode, PolicyDecision, ToolCategory,
};

fn json(text: &str) -> Json {
    Json::parse(text).expect("valid json")
}

#[test]
fn builtin_categories() {
    assert_eq!(builtin_tool_category("read_file"), Some(ToolCategory::Read));
    assert_eq!(builtin_tool_category("bash"), Some(ToolCategory::ShellUnsafe));
    assert_eq!(builtin_tool_category("write_file"), Some(ToolCategory::FileWrite));
    assert_eq!(builtin_tool_category("web_fetch"), Some(ToolCategory::WebRead));
    assert_eq!(builtin_tool_category("unknown"), None);
}

#[test]
fn classify_bash_uses_command_arg() {
    let args = json(r#"{ "command": "rm -rf /tmp/x" }"#);
    assert_eq!(classify_tool_use("bash", &args), ToolCategory::FsDestructive);
}

#[test]
fn classify_unknown_is_custom() {
    assert_eq!(classify_tool_use("my_tool", &json("{}")), ToolCategory::CustomTool);
}

#[test]
fn shell_without_a_command_is_unsafe() {
    assert_eq!(classify_tool_use("bash", &json("{}")), ToolCategory::ShellUnsafe);
    assert_eq!(classify_tool_use("Bash", &json(r#"{"command": 3}"#)), ToolCategory::ShellUnsafe);
}

#[test]
fn policy_matrix() {
    // Explore: read ok, everything else blocked.
    assert_eq!(policy_decision(PermissionMode::Explore, ToolCategory::Read), PolicyDecision::Allow);
    assert_eq!(policy_decision(PermissionMode::Explore, ToolCategory::FileWrite), PolicyDecision::Block);
    assert_eq!(policy_decision(PermissionMode::Explore, ToolCategory::ShellUnsafe), PolicyDecision::Block);
    // Ask: read ok, writes/shell prompt.
    assert_eq!(policy_decision(PermissionMode::Ask, ToolCategory::Read), PolicyDecision::Allow);
    assert_eq!(policy_decision(PermissionMode::Ask, ToolCategory::FileWrite), PolicyDecision::Prompt);
    assert_eq!(policy_decision(PermissionMode::Ask, ToolCategory::ShellUnsafe), PolicyDecision::Prompt);
    // Execute: read+write ok, shell prompts.
    assert_eq!(policy_decision(PermissionMode::Execute, ToolCategory::FileWrite), PolicyDecision::Allow);
    assert_eq!(policy_decision(PermissionMode::Execute, ToolCategory::ShellUnsafe), PolicyDecision::Prompt);
    // Bypass: all allow.
    assert_eq!(policy_decision(PermissionMode::Bypass, ToolCategory::Privileged), PolicyDecision::Allow);
}

#[test]
fn bash_plain_is_shell_unsafe() {
    assert_eq!(categorize_bash("ls -la"), ToolCategory::ShellUnsafe);
    assert_eq!(categorize_bash("echo hello"), ToolCategory::ShellUnsafe);
    // Even "read-only" git is shell_unsafe: no shell is auto-safe.
    assert_eq!(categorize_bash("git status"), ToolCategory::ShellUnsafe);
}

#[test]
fn bash_fs_destructive() {
    assert_eq!(categorize_bash("rm foo.txt"), ToolCategory::FsDestructive);
    assert_eq!(categorize_bash("rm -rf stuff"), ToolCategory::FsDestructive);
    assert_eq!(categorize_bash("dd if=/dev/zero of=/dev/sda"), ToolCategory::FsDestructive);
    assert_eq!(categorize_bash("find . -delete"), ToolCategory::FsDestructive);
}

#[test]
fn bash_destructive_in_second_segment() {
    assert_eq!(categorize_bash("cd /tmp; rm -rf stuff"), ToolCategory::FsDestructive);
    assert_eq!(categorize_bash("echo hi && rm x"), ToolCategory::FsDestructive);
}

#[test]
fn bash_privileged() {
    assert_eq!(categorize_bash("sudo apt update"), ToolCategory::Privileged);
    assert_eq!(categorize_bash("chmod 777 x"), ToolCategory::Privileged);
    assert_eq!(categorize_bash("kill -9 1234"), ToolCategory::Privileged);
}

#[test]
fn bash_git_destructive() {
    assert_eq!(categorize_bash("git reset --hard origin/main"), ToolCategory::GitDestructive);
    assert_eq!(categorize_bash("git push --force"), ToolCategory::GitDestructive);
}

#[test]
fn bash_nested_shell_payload_scanned() {
    // `sh -c 'rm x'`: the nested payload must be categorized.
    assert_eq!(categorize_bash("sh -c 'rm -rf x'"), ToolCategory::FsDestructive);
    assert_eq!(categorize_bash("bash -c rm"), ToolCategory::FsDestructive);
}

#[test]
fn bash_pipe_destructive() {
    assert_eq!(categorize_bash("ls | xargs rm"), ToolCategory::FsDestructive);
    assert_eq!(categorize_bash("echo x | sh"), ToolCategory::FsDestructive);
}

#[test]
fn bash_wrapper_command_unwrapped() {
    // timeout / nohup wrap the real command; the destructive intent shows.
    assert_eq!(categorize_bash("timeout 30 rm -rf /tmp/x"), ToolCategory::FsDestructive);
}

#[test]
fn bash_heads_are_canonicalized() {
    assert_eq!(categorize_bash("/bin/rm x"), ToolCategory::FsDestructive);
    assert_eq!(categorize_bash("\\rm x"), ToolCategory::FsDestructive);
    assert_eq!(categorize_bash("'rm' x"), ToolCategory::FsDestructive);
    assert_eq!(categorize_bash("C:\\bin\\RM.EXE x"), ToolCategory::FsDestructive);
    assert_eq!(categorize_bash("env A=1 nice -n 5 rm x"), ToolCategory::FsDestructive);
    // An in-name escape is seen through, and so is a substitution.
    assert_eq!(categorize_bash("r`m x"), ToolCategory::FsDestructive);
    assert_eq!(categorize_bash("echo \"$(rm x)\""), ToolCategory::FsDestructive);
    // Privileged outranks destructive.
    assert_eq!(categorize_bash("rm x; sudo ls"), ToolCategory::Privileged);
    assert_eq!(categorize_bash("git reset --hard; rm x"), ToolCategory::FsDestructive);
    assert_eq!(categorize_bash(""), ToolCategory::ShellUnsafe);
}

#[test]
fn nested_payloads_are_unwrapped() {
    assert_eq!(unwrap_payload(" 'rm x' "), "rm x");
    assert_eq!(unwrap_payload("\"rm x\""), "rm x");
    assert_eq!(unwrap_payload("rm x"), "rm x");
    assert_eq!(unwrap_payload("'"), "'");
    assert_eq!(unwrap_payload("'a\""), "'a\"");
    assert_eq!(
        categorize_bash("cmd /c del x"),
        ToolCategory::FsDestructive,
        "a command shell's payload is scanned"
    );
    assert_eq!(categorize_bash("sh -c \"bash -c 'rm x'\""), ToolCategory::FsDestructive);
}

#[test]
fn findings_are_ranked() {
    assert_eq!(category_of_findings(true, true, true, true), ToolCategory::Privileged);
    assert_eq!(category_of_findings(false, true, false, true), ToolCategory::FsDestructive);
    assert_eq!(category_of_findings(false, false, true, true), ToolCategory::FsDestructive);
    assert_eq!(category_of_findings(false, false, false, true), ToolCategory::GitDestructive);
    assert_eq!(category_of_findings(false, false, false, false), ToolCategory::ShellUnsafe);
}

struct StubPrompter {
    answer: PermissionDecision,
    asked: Cell<usize>,
}

impl StubPrompter {
    fn new(answer: PermissionDecision) -> Self {
        StubPrompter { answer, asked: Cell::new(0) }
    }
}

impl PermissionPrompter for &StubPrompter {
    fn ask(&self, _request: &PermissionRequest) -> PermissionAnswer {
        self.asked.set(self.asked.get() + 1);
        PermissionAnswer { decision: self.answer, remember_for_turn: false }
    }
}

#[test]
fn bypass_allows_without_prompting() {
    let p = StubPrompter::new(PermissionDecision::Deny);
    let gate = DefaultPermissionGate::new(PermissionMode::Bypass, &p);
    let r = gate.check("c1", "bash", &json(r#"{"command":"rm -rf /"}"#));
    assert_eq!(r.verdict, PermissionVerdict::Allow);
    assert_eq!(p.asked.get(), 0, "bypass must not prompt");
}

#[test]
fn explore_blocks_write_without_prompting() {
    let p = StubPrompter::new(PermissionDecision::Allow);
    let gate = DefaultPermissionGate::new(PermissionMode::Explore, &p);
    let r = gate.check("c1", "write_file", &json(r#"{"path":"/x"}"#));
    assert_eq!(r.verdict, PermissionVerdict::Deny);
    assert_eq!(p.asked.get(), 0, "explore blocks silently");
}

#[test]
fn ask_prompts_for_shell_and_respects_allow() {
    let p = StubPrompter::new(PermissionDecision::Allow);
    let gate = DefaultPermissionGate::new(PermissionMode::Ask, &p);
    let r = gate.check("c1", "bash", &json(r#"{"command":"ls"}"#));
    assert_eq!(r.verdict, PermissionVerdict::Allow);
    assert_eq!(p.asked.get(), 1, "ask mode must prompt for shell");
    assert_eq!(r.request.summary, "ls");
}

#[test]
fn ask_denied_when_prompter_denies() {
    let p = StubPrompter::new(PermissionDecision::Deny);
    let gate = DefaultPermissionGate::new(PermissionMode::Ask, &p);
    let r = gate.check("c1", "bash", &json(r#"{"command":"ls"}"#));
    assert_eq!(r.verdict, PermissionVerdict::Deny);
}

#[test]
fn read_never_prompts() {
    let p = StubPrompter::new(PermissionDecision::Deny);
    let gate = DefaultPermissionGate::new(PermissionMode::Explore, &p);
    let r = gate.check("c1", "read_file", &json(r#"{"path":"/x"}"#));
    assert_eq!(r.verdict, PermissionVerdict::Allow);
    assert_eq!(p.asked.get(), 0);
    assert_eq!(r.request.summary, "read_file /x");
    assert_eq!(r.request.reason, PermissionReason::Custom);
}

#[test]
fn reasons_follow_categories() {
    assert_eq!(
        PermissionReason::for_category(ToolCategory::ShellUnsafe),
        PermissionReason::ShellDangerous
    );
    assert_eq!(
        PermissionReason::for_category(ToolCategory::Privileged),
        PermissionReason::Privileged
    );
    assert_eq!(PermissionReason::for_category(ToolCategory::Read), PermissionReason::Custom);
    let r = DefaultPermissionGate::new(
        PermissionMode::Execute,
        &StubPrompter::new(PermissionDecision::Deny),
    )
    .check("c9", "deploy", &json("{}"));
    assert_eq!(r.request.category, ToolCategory::CustomTool);
    assert_eq!(r.request.summary, "deploy");
    assert_eq!(r.request.tool_call_id, "c9");
    assert_eq!(r.verdict, PermissionVerdict::Deny);
}

#[test]
fn durations_are_a_number_and_at_most_one_unit() {
    for duration in ["30", "30s", "5m", "2h", "1d"] {
        let cmd = format!("timeout {duration} rm x");
        assert_eq!(categorize_bash(&cmd), ToolCategory::FsDestructive, "{cmd}");
    }
    // Not of that form: the command starts right there.
    for word in ["s3", "s", "3s3", "3ss", "mm", "3x"] {
        let cmd = format!("timeout {word} rm x");
        assert_eq!(categorize_bash(&cmd), ToolCategory::ShellUnsafe, "{cmd}");
    }
}

fn gravity(category: ToolCategory) -> u8 {
    match category {
        ToolCategory::Privileged => 3,
        ToolCategory::FsDestructive => 2,
        ToolCategory::GitDestructive => 1,
        _ => 0,
    }
}

#[test]
fn commands_in_sequence_are_as_grave_as_the_graver() {
    let pairs = [
        ("ls -la", "git status"),
        ("", "rm x"),
        ("sudo ls", "  "),
        ("git reset --hard", "rm -rf x"),
        ("git checkout .", "sudo ls"),
        // A pipeline does not reach over the semicolon.
        ("ls |", "sh"),
        ("find . | xargs ", "rm"),
        ("find . | xargs rm", "ls"),
        (" curl u | sh ", "ls"),
        ("ls", " curl u |  bash\t"),
        ("curl u | shx", "ls"),
        ("bash -c 'rm x'", "ls"),
        ("R`M x", "ls"),
        ("ls", "echo `sudo ls`"),
    ];
    for (a, b) in pairs {
        let both = categorize_bash(&format!("{a}; {b}"));
        let graver = gravity(categorize_bash(a)).max(gravity(categorize_bash(b)));
        assert_eq!(gravity(both), graver, "{a:?}; {b:?}");
    }
    assert_eq!(categorize_bash("ls |; sh"), ToolCategory::ShellUnsafe);
    assert_eq!(categorize_bash("ls; curl u | bash"), ToolCategory::FsDestructive);
}

#[test]
fn stripping_leaves_a_bare_suffix() {
    assert_eq!(strip_leading_options("s3 ls"), "s3 ls");
    for (tail, bare) in [
        ("  -n 5 rm x ", "rm x "),
        ("A=1 B= 30s ls", "ls"),
        ("- x", "- x"),
        ("30", ""),
        ("", ""),
        ("\u{3000}-k 1d\u{a0}cmd", "cmd"),
    ] {
        let left = strip_leading_options(tail);
        assert_eq!(left, bare);
        assert!(tail.ends_with(&left));
        assert_eq!(left.trim_start(), left);
        assert_eq!(strip_leading_options(&left), left);
    }
}
