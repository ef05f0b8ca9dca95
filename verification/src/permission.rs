//! Permission contracts: tool categorization and the mode and category policy.
//!
//! Every tool call is classified into a [`ToolCategory`]; the session's
//! [`PermissionMode`] (the immutable creation-time ceiling) plus the category
//! yield a [`PolicyDecision`] (allow, prompt or block).
//!
//! **There is no `shell_safe` category.** A shell is Turing-complete, so its
//! runtime effect cannot be decided from a static string: every command is at
//! least [`ToolCategory::ShellUnsafe`]. [`categorize_bash`] only makes the
//! confirmation *reason* accurate; it never opens the allow-vs-prompt gate. A
//! missed pattern is therefore a wording nit, not a bypass.

use crate::json::Json;
use crate::json::JsonView;
use crate::json::opt;
use crate::schema::key_views;
use crate::text::after_last;
use crate::text::chars_eq;
use crate::text::chars_of;
use crate::text::cut;
use crate::text::ends_with;
use crate::text::find_char;
use crate::text::find_space;
use crate::text::first_token;
use crate::text::first_where;
use crate::text::has_suffix;
use crate::text::is_space;
use crate::text::lemma_first_where;
use crate::text::lemma_trim_end_prefix;
use crate::text::lemma_trim_end_stops;
use crate::text::lemma_trim_of_trim_end;
use crate::text::lemma_trim_start_stops;
use crate::text::lemma_trim_start_suffix;
use crate::text::lower;
use crate::text::lower_char;
use crate::text::lowered;
use crate::text::starts_with;
use crate::text::str_eq;
use crate::text::string_of;
use crate::text::trim;
use crate::text::trim_end;
use crate::text::trim_start;
use crate::text::trimmed;
use crate::text::trimmed_start;
use crate::schema::read_variant;
use crate::schema::variant_name;
use vstd::prelude::*;

verus! {

/// Immutable creation-time permission ceiling.
#[derive(Debug, Clone, Copy, PartialEq, Eq, Structural)]
pub enum PermissionMode {
    /// Read-only: no writes, no shell, no network send.
    Explore,
    /// Read freely; writes and shell prompt.
    Ask,
    /// Reads and file writes allowed; shell and destructive prompt.
    Execute,
    /// Everything allowed (trusted automation, development).
    Bypass,
}

impl PermissionMode {
    /// The name of the variant on the wire.
    pub open spec fn wire(self) -> Seq<char> {
        match self {
            PermissionMode::Explore => "explore"@,
            PermissionMode::Ask => "ask"@,
            PermissionMode::Execute => "execute"@,
            PermissionMode::Bypass => "bypass"@,
        }
    }

    /// The names on the wire: each variant is written, and read back, as its own.
    pub proof fn law_wire_names()
        ensures
            PermissionMode::Explore.wire() == "explore"@,
            PermissionMode::of_wire("explore"@) == Some(PermissionMode::Explore),
            PermissionMode::Ask.wire() == "ask"@,
            PermissionMode::of_wire("ask"@) == Some(PermissionMode::Ask),
            PermissionMode::Execute.wire() == "execute"@,
            PermissionMode::of_wire("execute"@) == Some(PermissionMode::Execute),
            PermissionMode::Bypass.wire() == "bypass"@,
            PermissionMode::of_wire("bypass"@) == Some(PermissionMode::Bypass),
    {
        PermissionMode::Explore.lemma_wire();
        PermissionMode::Ask.lemma_wire();
        PermissionMode::Execute.lemma_wire();
        PermissionMode::Bypass.lemma_wire();
    }

    pub open spec fn json(self) -> JsonView {
        JsonView::Text(self.wire())
    }

    /// The variant that `s` names on the wire.
    pub open spec fn of_wire(s: Seq<char>) -> Option<PermissionMode> {
        if s == "explore"@ {
            Some(PermissionMode::Explore)
        } else if s == "ask"@ {
            Some(PermissionMode::Ask)
        } else if s == "execute"@ {
            Some(PermissionMode::Execute)
        } else if s == "bypass"@ {
            Some(PermissionMode::Bypass)
        } else {
            None
        }
    }

    pub open spec fn of_json(v: JsonView) -> Option<PermissionMode> {
        match variant_name(v) {
            Some(s) => PermissionMode::of_wire(s),
            None => None,
        }
    }

    /// The name of the variant on the wire.
    pub fn as_str(self) -> (r: &'static str)
        ensures
            r@ == self.wire(),
    {
        match self {
            PermissionMode::Explore => "explore",
            PermissionMode::Ask => "ask",
            PermissionMode::Execute => "execute",
            PermissionMode::Bypass => "bypass",
        }
    }

    pub fn to_json(self) -> (r: Json)
        ensures
            r@ == self.json(),
    {
        Json::Text(self.as_str().to_owned())
    }

    /// The variant that `s` names on the wire.
    pub fn parse(s: &str) -> (r: Option<PermissionMode>)
        ensures
            r == PermissionMode::of_wire(s@),
    {
        if str_eq(s, "explore") {
            Some(PermissionMode::Explore)
        } else if str_eq(s, "ask") {
            Some(PermissionMode::Ask)
        } else if str_eq(s, "execute") {
            Some(PermissionMode::Execute)
        } else if str_eq(s, "bypass") {
            Some(PermissionMode::Bypass)
        } else {
            None
        }
    }

    pub fn from_json(v: &Json) -> (r: Option<PermissionMode>)
        ensures
            r == PermissionMode::of_json(v@),
    {
        match read_variant(v) {
            Some(s) => PermissionMode::parse(s.as_str()),
            None => None,
        }
    }

    /// Every variant is read back from its wire name.
    pub proof fn lemma_wire(self)
        ensures
            PermissionMode::of_wire(self.wire()) == Some(self),
            PermissionMode::of_json(self.json()) == Some(self),
    {
        reveal_strlit("explore");
        reveal_strlit("ask");
        reveal_strlit("execute");
        reveal_strlit("bypass");
        assert("explore"@.len() == 7);
        assert("ask"@.len() == 3);
        assert("execute"@.len() == 7);
        assert("bypass"@.len() == 6);
        assert("explore"@[2] != "execute"@[2]);
    }
}

/// Canonical tool category.
#[derive(Debug, Clone, Copy, PartialEq, Eq, Hash, Structural)]
pub enum ToolCategory {
    /// Read, Grep, Glob, ListDir.
    Read,
    /// WebFetch, WebSearch (GET-class).
    WebRead,
    /// Write, Edit, MultiEdit (create, append, overwrite).
    FileWrite,
    /// rm, dd, shred, mkfs, find -delete, ...
    FsDestructive,
    /// Default Bash bucket, never auto-allowed.
    ShellUnsafe,
    /// git reset --hard, push --force, branch -D, ...
    GitDestructive,
    /// sudo, chmod, chown, kill, systemctl.
    Privileged,
    /// Session-scoped tools without a stricter category hint.
    CustomTool,
}

impl ToolCategory {
    /// The name of the variant on the wire.
    pub open spec fn wire(self) -> Seq<char> {
        match self {
            ToolCategory::Read => "read"@,
            ToolCategory::WebRead => "web_read"@,
            ToolCategory::FileWrite => "file_write"@,
            ToolCategory::FsDestructive => "fs_destructive"@,
            ToolCategory::ShellUnsafe => "shell_unsafe"@,
            ToolCategory::GitDestructive => "git_destructive"@,
            ToolCategory::Privileged => "privileged"@,
            ToolCategory::CustomTool => "custom_tool"@,
        }
    }

    /// The names on the wire: each variant is written, and read back, as its own.
    pub proof fn law_wire_names()
        ensures
            ToolCategory::Read.wire() == "read"@,
            ToolCategory::of_wire("read"@) == Some(ToolCategory::Read),
            ToolCategory::WebRead.wire() == "web_read"@,
            ToolCategory::of_wire("web_read"@) == Some(ToolCategory::WebRead),
            ToolCategory::FileWrite.wire() == "file_write"@,
            ToolCategory::of_wire("file_write"@) == Some(ToolCategory::FileWrite),
            ToolCategory::FsDestructive.wire() == "fs_destructive"@,
            ToolCategory::of_wire("fs_destructive"@) == Some(ToolCategory::FsDestructive),
            ToolCategory::ShellUnsafe.wire() == "shell_unsafe"@,
            ToolCategory::of_wire("shell_unsafe"@) == Some(ToolCategory::ShellUnsafe),
            ToolCategory::GitDestructive.wire() == "git_destructive"@,
            ToolCategory::of_wire("git_destructive"@) == Some(ToolCategory::GitDestructive),
            ToolCategory::Privileged.wire() == "privileged"@,
            ToolCategory::of_wire("privileged"@) == Some(ToolCategory::Privileged),
            ToolCategory::CustomTool.wire() == "custom_tool"@,
            ToolCategory::of_wire("custom_tool"@) == Some(ToolCategory::CustomTool),
    {
        ToolCategory::Read.lemma_wire();
        ToolCategory::WebRead.lemma_wire();
        ToolCategory::FileWrite.lemma_wire();
        ToolCategory::FsDestructive.lemma_wire();
        ToolCategory::ShellUnsafe.lemma_wire();
        ToolCategory::GitDestructive.lemma_wire();
        ToolCategory::Privileged.lemma_wire();
        ToolCategory::CustomTool.lemma_wire();
    }

    pub open spec fn json(self) -> JsonView {
        JsonView::Text(self.wire())
    }

    /// The variant that `s` names on the wire.
    pub open spec fn of_wire(s: Seq<char>) -> Option<ToolCategory> {
        if s == "read"@ {
            Some(ToolCategory::Read)
        } else if s == "web_read"@ {
            Some(ToolCategory::WebRead)
        } else if s == "file_write"@ {
            Some(ToolCategory::FileWrite)
        } else if s == "fs_destructive"@ {
            Some(ToolCategory::FsDestructive)
        } else if s == "shell_unsafe"@ {
            Some(ToolCategory::ShellUnsafe)
        } else if s == "git_destructive"@ {
            Some(ToolCategory::GitDestructive)
        } else if s == "privileged"@ {
            Some(ToolCategory::Privileged)
        } else if s == "custom_tool"@ {
            Some(ToolCategory::CustomTool)
        } else {
            None
        }
    }

    pub open spec fn of_json(v: JsonView) -> Option<ToolCategory> {
        match variant_name(v) {
            Some(s) => ToolCategory::of_wire(s),
            None => None,
        }
    }

    /// The name of the variant on the wire.
    pub fn as_str(self) -> (r: &'static str)
        ensures
            r@ == self.wire(),
    {
        match self {
            ToolCategory::Read => "read",
            ToolCategory::WebRead => "web_read",
            ToolCategory::FileWrite => "file_write",
            ToolCategory::FsDestructive => "fs_destructive",
            ToolCategory::ShellUnsafe => "shell_unsafe",
            ToolCategory::GitDestructive => "git_destructive",
            ToolCategory::Privileged => "privileged",
            ToolCategory::CustomTool => "custom_tool",
        }
    }

    pub fn to_json(self) -> (r: Json)
        ensures
            r@ == self.json(),
    {
        Json::Text(self.as_str().to_owned())
    }

    /// The variant that `s` names on the wire.
    pub fn parse(s: &str) -> (r: Option<ToolCategory>)
        ensures
            r == ToolCategory::of_wire(s@),
    {
        if str_eq(s, "read") {
            Some(ToolCategory::Read)
        } else if str_eq(s, "web_read") {
            Some(ToolCategory::WebRead)
        } else if str_eq(s, "file_write") {
            Some(ToolCategory::FileWrite)
        } else if str_eq(s, "fs_destructive") {
            Some(ToolCategory::FsDestructive)
        } else if str_eq(s, "shell_unsafe") {
            Some(ToolCategory::ShellUnsafe)
        } else if str_eq(s, "git_destructive") {
            Some(ToolCategory::GitDestructive)
        } else if str_eq(s, "privileged") {
            Some(ToolCategory::Privileged)
        } else if str_eq(s, "custom_tool") {
            Some(ToolCategory::CustomTool)
        } else {
            None
        }
    }

    pub fn from_json(v: &Json) -> (r: Option<ToolCategory>)
        ensures
            r == ToolCategory::of_json(v@),
    {
        match read_variant(v) {
            Some(s) => ToolCategory::parse(s.as_str()),
            None => None,
        }
    }

    /// Every variant is read back from its wire name.
    pub proof fn lemma_wire(self)
        ensures
            ToolCategory::of_wire(self.wire()) == Some(self),
            ToolCategory::of_json(self.json()) == Some(self),
    {
        reveal_strlit("read");
        reveal_strlit("web_read");
        reveal_strlit("file_write");
        reveal_strlit("fs_destructive");
        reveal_strlit("shell_unsafe");
        reveal_strlit("git_destructive");
        reveal_strlit("privileged");
        reveal_strlit("custom_tool");
        assert("read"@.len() == 4);
        assert("web_read"@.len() == 8);
        assert("file_write"@.len() == 10);
        assert("fs_destructive"@.len() == 14);
        assert("shell_unsafe"@.len() == 12);
        assert("git_destructive"@.len() == 15);
        assert("privileged"@.len() == 10);
        assert("custom_tool"@.len() == 11);
        assert("file_write"@[0] != "privileged"@[0]);
    }
}

/// Policy verdict for one tool call under the current mode.
#[derive(Debug, Clone, Copy, PartialEq, Eq, Structural)]
pub enum PolicyDecision {
    Allow,
    Prompt,
    Block,
}

impl PolicyDecision {
    /// The name of the variant on the wire.
    pub open spec fn wire(self) -> Seq<char> {
        match self {
            PolicyDecision::Allow => "allow"@,
            PolicyDecision::Prompt => "prompt"@,
            PolicyDecision::Block => "block"@,
        }
    }

    /// The names on the wire: each variant is written, and read back, as its own.
    pub proof fn law_wire_names()
        ensures
            PolicyDecision::Allow.wire() == "allow"@,
            PolicyDecision::of_wire("allow"@) == Some(PolicyDecision::Allow),
            PolicyDecision::Prompt.wire() == "prompt"@,
            PolicyDecision::of_wire("prompt"@) == Some(PolicyDecision::Prompt),
            PolicyDecision::Block.wire() == "block"@,
            PolicyDecision::of_wire("block"@) == Some(PolicyDecision::Block),
    {
        PolicyDecision::Allow.lemma_wire();
        PolicyDecision::Prompt.lemma_wire();
        PolicyDecision::Block.lemma_wire();
    }

    pub open spec fn json(self) -> JsonView {
        JsonView::Text(self.wire())
    }

    /// The variant that `s` names on the wire.
    pub open spec fn of_wire(s: Seq<char>) -> Option<PolicyDecision> {
        if s == "allow"@ {
            Some(PolicyDecision::Allow)
        } else if s == "prompt"@ {
            Some(PolicyDecision::Prompt)
        } else if s == "block"@ {
            Some(PolicyDecision::Block)
        } else {
            None
        }
    }

    pub open spec fn of_json(v: JsonView) -> Option<PolicyDecision> {
        match variant_name(v) {
            Some(s) => PolicyDecision::of_wire(s),
            None => None,
        }
    }

    /// The name of the variant on the wire.
    pub fn as_str(self) -> (r: &'static str)
        ensures
            r@ == self.wire(),
    {
        match self {
            PolicyDecision::Allow => "allow",
            PolicyDecision::Prompt => "prompt",
            PolicyDecision::Block => "block",
        }
    }

    pub fn to_json(self) -> (r: Json)
        ensures
            r@ == self.json(),
    {
        Json::Text(self.as_str().to_owned())
    }

    /// The variant that `s` names on the wire.
    pub fn parse(s: &str) -> (r: Option<PolicyDecision>)
        ensures
            r == PolicyDecision::of_wire(s@),
    {
        if str_eq(s, "allow") {
            Some(PolicyDecision::Allow)
        } else if str_eq(s, "prompt") {
            Some(PolicyDecision::Prompt)
        } else if str_eq(s, "block") {
            Some(PolicyDecision::Block)
        } else {
            None
        }
    }

    pub fn from_json(v: &Json) -> (r: Option<PolicyDecision>)
        ensures
            r == PolicyDecision::of_json(v@),
    {
        match read_variant(v) {
            Some(s) => PolicyDecision::parse(s.as_str()),
            None => None,
        }
    }

    /// Every variant is read back from its wire name.
    pub proof fn lemma_wire(self)
        ensures
            PolicyDecision::of_wire(self.wire()) == Some(self),
            PolicyDecision::of_json(self.json()) == Some(self),
    {
        reveal_strlit("allow");
        reveal_strlit("prompt");
        reveal_strlit("block");
        assert("allow"@.len() == 5);
        assert("prompt"@.len() == 6);
        assert("block"@.len() == 5);
        assert("allow"@[0] != "block"@[0]);
    }
}

// ---------------------------------------------------------------------------
// Tool categories and the policy matrix
// ---------------------------------------------------------------------------

/// The category of a builtin tool, by its name.
pub open spec fn builtin_category(name: Seq<char>) -> Option<ToolCategory> {
    if name == "read_file"@
        || name == "Read"@
        || name == "grep"@
        || name == "Grep"@
        || name == "glob"@
        || name == "Glob"@
        || name == "list_dir"@ {
        Some(ToolCategory::Read)
    } else if name == "web_fetch"@
        || name == "WebFetch"@
        || name == "web_search"@
        || name == "WebSearch"@ {
        Some(ToolCategory::WebRead)
    } else if name == "write_file"@
        || name == "Write"@
        || name == "edit"@
        || name == "Edit"@
        || name == "multi_edit"@
        || name == "MultiEdit"@ {
        Some(ToolCategory::FileWrite)
    } else if name == "bash"@
        || name == "Bash"@ {
        Some(ToolCategory::ShellUnsafe)
    } else {
        None
    }
}

/// Map a builtin tool name to its category, if known.
pub fn builtin_tool_category(tool_name: &str) -> (r: Option<ToolCategory>)
    ensures
        r == builtin_category(tool_name@),
{
    if str_eq(tool_name, "read_file")
        || str_eq(tool_name, "Read")
        || str_eq(tool_name, "grep")
        || str_eq(tool_name, "Grep")
        || str_eq(tool_name, "glob")
        || str_eq(tool_name, "Glob")
        || str_eq(tool_name, "list_dir") {
        Some(ToolCategory::Read)
    } else if str_eq(tool_name, "web_fetch")
        || str_eq(tool_name, "WebFetch")
        || str_eq(tool_name, "web_search")
        || str_eq(tool_name, "WebSearch") {
        Some(ToolCategory::WebRead)
    } else if str_eq(tool_name, "write_file")
        || str_eq(tool_name, "Write")
        || str_eq(tool_name, "edit")
        || str_eq(tool_name, "Edit")
        || str_eq(tool_name, "multi_edit")
        || str_eq(tool_name, "MultiEdit") {
        Some(ToolCategory::FileWrite)
    } else if str_eq(tool_name, "bash")
        || str_eq(tool_name, "Bash") {
        Some(ToolCategory::ShellUnsafe)
    } else {
        None
    }
}

/// The category of a tool call, where the command of a shell call is `command`
/// categorized as `shell`.
pub open spec fn tool_use_category(
    name: Seq<char>,
    command: Option<Seq<char>>,
    shell: spec_fn(Seq<char>) -> ToolCategory,
) -> ToolCategory {
    match builtin_category(name) {
        Some(ToolCategory::ShellUnsafe) => match command {
            Some(cmd) => shell(cmd),
            None => ToolCategory::ShellUnsafe,
        },
        Some(category) => category,
        None => ToolCategory::CustomTool,
    }
}

/// Classify a tool invocation: builtin mapping, with Bash arguments refined by
/// [`categorize_bash`].
pub fn classify_tool_use(tool_name: &str, args: &Json) -> (r: ToolCategory)
    ensures
        r == tool_use_category(
            tool_name@,
            args@.text_at("command"@),
            |cmd: Seq<char>| bash_category(cmd),
        ),
{
    match builtin_tool_category(tool_name) {
        Some(ToolCategory::ShellUnsafe) => match args.text_at("command") {
            Some(cmd) => categorize_bash(cmd.as_str()),
            None => ToolCategory::ShellUnsafe,
        },
        Some(category) => category,
        None => ToolCategory::CustomTool,
    }
}

/// The mode and category policy matrix.
pub open spec fn policy(mode: PermissionMode, category: ToolCategory) -> PolicyDecision {
    let reads = category is Read || category is WebRead;
    match mode {
        PermissionMode::Bypass => PolicyDecision::Allow,
        PermissionMode::Explore => if reads {
            PolicyDecision::Allow
        } else {
            PolicyDecision::Block
        },
        PermissionMode::Ask => if reads {
            PolicyDecision::Allow
        } else {
            PolicyDecision::Prompt
        },
        PermissionMode::Execute => if reads || category is FileWrite {
            PolicyDecision::Allow
        } else {
            PolicyDecision::Prompt
        },
    }
}

/// The mode and category policy matrix.
pub fn policy_decision(mode: PermissionMode, category: ToolCategory) -> (r: PolicyDecision)
    ensures
        r == policy(mode, category),
{
    match (mode, category) {
        (PermissionMode::Bypass, _) => PolicyDecision::Allow,
        (PermissionMode::Explore, ToolCategory::Read) => PolicyDecision::Allow,
        (PermissionMode::Explore, ToolCategory::WebRead) => PolicyDecision::Allow,
        (PermissionMode::Explore, _) => PolicyDecision::Block,
        (PermissionMode::Ask, ToolCategory::Read) => PolicyDecision::Allow,
        (PermissionMode::Ask, ToolCategory::WebRead) => PolicyDecision::Allow,
        (PermissionMode::Ask, _) => PolicyDecision::Prompt,
        (PermissionMode::Execute, ToolCategory::Read) => PolicyDecision::Allow,
        (PermissionMode::Execute, ToolCategory::WebRead) => PolicyDecision::Allow,
        (PermissionMode::Execute, ToolCategory::FileWrite) => PolicyDecision::Allow,
        (PermissionMode::Execute, _) => PolicyDecision::Prompt,
    }
}

/// Raising the ceiling never takes a permission away.
pub proof fn law_modes_are_ordered(category: ToolCategory)
    ensures
        policy(PermissionMode::Explore, category) is Allow ==> policy(
            PermissionMode::Ask,
            category,
        ) is Allow,
        policy(PermissionMode::Ask, category) is Allow ==> policy(
            PermissionMode::Execute,
            category,
        ) is Allow,
        policy(PermissionMode::Bypass, category) is Allow,
{
}

/// Explore mode decides alone: it never asks the user.
pub proof fn law_explore_never_prompts(category: ToolCategory)
    ensures
        !(policy(PermissionMode::Explore, category) is Prompt),
{
}

/// No shell command is ever allowed without asking, except under Bypass.
pub proof fn law_shell_is_never_auto_allowed(mode: PermissionMode, cmd: Seq<char>)
    ensures
        policy(mode, bash_category(cmd)) is Allow <==> mode is Bypass,
        mode is Ask || mode is Execute ==> policy(mode, bash_category(cmd)) is Prompt,
{
}

// ---------------------------------------------------------------------------
// The pattern table
// ---------------------------------------------------------------------------

/// What `regex::Regex::is_match` says of `text` for the given pattern.
pub uninterp spec fn regex_found(pattern: Seq<char>, text: Seq<char>) -> bool;

/// What the first capture group of the leftmost match of the pattern holds.
pub uninterp spec fn regex_group(pattern: Seq<char>, text: Seq<char>) -> Option<Seq<char>>;

/// A pipeline into `xargs` with a destructive command.
pub open spec fn xargs_pattern() -> Seq<char> {
    r"\|\s*xargs\b[^\n;&|]*\b(rm|shred|truncate|dd)\b"@
}

/// A pipeline into a shell.
pub open spec fn shell_pattern() -> Seq<char> {
    r"\|\s*(sh|bash|zsh)\b"@
}

/// `a`, a semicolon, and `b`.
pub open spec fn beside(a: Seq<char>, b: Seq<char>) -> Seq<char> {
    a.push(';') + b
}

/// `regex::Regex::is_match`: whether the pattern matches anywhere in the text.
/// A pattern that does not compile matches nothing.
///
/// What the two pipeline patterns match starts with a bar, ends with the last letter
/// of a word and holds no semicolon: neither `\s` nor `[^\n;&|]` takes one. The closing
/// `\b` holds before a semicolon or white space as it does at the end of the text. So
/// these two match a text with a semicolon exactly if they match what stands on one
/// side of it, with or without the white space around that.
#[verifier::external_body]
fn regex_is_match(pattern: &str, text: &str) -> (r: bool)
    ensures
        r == regex_found(pattern@, text@),
        pattern@ == xargs_pattern() || pattern@ == shell_pattern() ==> forall|a: Seq<char>, b: Seq<char>|
            text@ == #[trigger] beside(a, b) ==> r == (regex_found(pattern@, trim(a))
                || regex_found(pattern@, trim(b))),
{
    regex::Regex::new(pattern).map_or(false, |re| re.is_match(text))
}

/// `regex::Regex::captures`: the text of the first capture group of the leftmost
/// match, when there is a match and the group took part in it.
#[verifier::external_body]
fn regex_capture(pattern: &str, text: &str) -> (r: Option<String>)
    ensures
        opt(r) == regex_group(pattern@, text@),
{
    let re = regex::Regex::new(pattern).ok()?;
    let captures = re.captures(text)?;
    captures.get(1).map(|m| m.as_str().to_owned())
}

/// Some pattern matches `text`.
pub open spec fn any_found(patterns: Seq<Seq<char>>, text: Seq<char>) -> bool {
    exists|i: int| 0 <= i < patterns.len() && regex_found(#[trigger] patterns[i], text)
}

/// Whether some pattern matches `text`.
fn any_match(patterns: &Vec<&'static str>, text: &str) -> (r: bool)
    ensures
        r == any_found(key_views(patterns@), text@),
        key_views(patterns@) == shell_patterns().pipe_destructive ==> forall|
            a: Seq<char>,
            b: Seq<char>,
        |
            text@ == #[trigger] beside(a, b) ==> r == (any_found(key_views(patterns@), trim(a))
                || any_found(key_views(patterns@), trim(b))),
{
    let ghost all = key_views(patterns@);
    let ghost pipes = all == shell_patterns().pipe_destructive;
    let mut i: usize = 0;
    while i < patterns.len()
        invariant
            i <= patterns.len(),
            all == key_views(patterns@),
            pipes == (all == shell_patterns().pipe_destructive),
            forall|k: int| 0 <= k < i ==> !regex_found(#[trigger] all[k], text@),
            pipes ==> forall|k: int, a: Seq<char>, b: Seq<char>|
                0 <= k < i && text@ == #[trigger] beside(a, b) ==> !regex_found(
                    #[trigger] all[k],
                    trim(a),
                ) && !regex_found(all[k], trim(b)),
        decreases patterns.len() - i,
    {
        proof {
            if pipes {
                let table = shell_patterns().pipe_destructive;
                assert(table.len() == 2 && table[0] == xargs_pattern() && table[1]
                    == shell_pattern());
                assert(all[i as int] == xargs_pattern() || all[i as int] == shell_pattern());
            }
        }
        if regex_is_match(patterns[i], text) {
            assert(regex_found(all[i as int], text@));
            return true;
        }
        assert(!regex_found(all[i as int], text@));
        i = i + 1;
    }
    false
}

/// The texts behind pairs of string slices.
pub open spec fn pair_views(v: Seq<(&str, &str)>) -> Seq<(Seq<char>, Seq<char>)> {
    Seq::new(v.len(), |i: int| (v[i].0@, v[i].1@))
}

/// The pattern table of shell categorization.
struct ShellPatterns {
    /// Lower-case prefixes of privileged commands.
    privileged_prefixes: Vec<&'static str>,
    /// Privileged commands.
    privileged: Vec<&'static str>,
    /// Segments that destroy files.
    fs_destructive: Vec<&'static str>,
    /// Pipelines into a destructive or interpreting command, over the whole line.
    pipe_destructive: Vec<&'static str>,
    /// Segments that destroy history or working-tree state.
    git_destructive: Vec<&'static str>,
    /// Shell-in-shell heads and the flag whose literal payload is categorized too.
    nested_shell: Vec<(&'static str, &'static str)>,
}

/// What the pattern table holds.
pub struct ShellPatternsView {
    /// Lower-case prefixes of privileged commands.
    pub privileged_prefixes: Seq<Seq<char>>,
    /// Privileged commands.
    pub privileged: Seq<Seq<char>>,
    /// Segments that destroy files.
    pub fs_destructive: Seq<Seq<char>>,
    /// Pipelines into a destructive or interpreting command, over the whole line.
    pub pipe_destructive: Seq<Seq<char>>,
    /// Segments that destroy history or working-tree state.
    pub git_destructive: Seq<Seq<char>>,
    /// Shell-in-shell heads and the flag whose literal payload is categorized too.
    pub nested_shell: Seq<(Seq<char>, Seq<char>)>,
}

/// The pattern table.
pub open spec fn shell_patterns() -> ShellPatternsView {
    ShellPatternsView {
        privileged_prefixes: seq![
            "sudo "@,
            "su "@,
            "chmod "@,
            "chown "@,
            "chgrp "@,
            "mount "@,
            "umount "@,
            "kill "@,
            "killall "@,
            "systemctl "@,
            "launchctl "@,
            "shutdown"@,
            "reboot"@,
        ],
        privileged: seq![
            r"(?i)^(kill|stop-process|spps|taskkill)\b"@,
            r"(?i)(^|\s)-verb\s+runas\b"@,
            r"(?i)^((start|stop|restart|set|new|remove|suspend|resume)-service|sasv|spsv)\b"@,
            r"(?i)^sc\s+(stop|start|pause|continue|delete|config|create|failure|sdset)\b"@,
            r"(?i)^net\s+(stop|start|pause|continue)\b"@,
            r"(?i)^(stop-computer|restart-computer)\b"@,
            r"(?i)^(icacls|takeown|set-acl|runas)\b"@,
        ],
        fs_destructive: seq![
            r"^dd\s+"@,
            r"^truncate\b"@,
            r"^shred\b"@,
            r"^mkfs\b"@,
            r"^git\s+restore\s+(\.\s*$|--\s+\S+)"@,
            r"^git\s+checkout\s+--\s+\S+"@,
            r"^find\s+.*\s-delete\b"@,
            r"^find\s+.*\s-exec\s+.*\b(rm|shred|truncate|dd)\b"@,
            r"^xargs\s+.*\b(rm|shred|truncate|dd)\b"@,
            r"(?i)^remove-item\b"@,
            r"(?i)^(rm|rmdir|ri|del|erase|rd)\b"@,
            r"(?i)^(clear-content|clc)\b"@,
        ],
        pipe_destructive: seq![xargs_pattern(), shell_pattern()],
        git_destructive: seq![
            r"^git\s+reset\s+--hard\b"@,
            r"^git\s+push\s+(--force|-f)\b"@,
            r"^git\s+branch\s+-D\b"@,
            r"^git\s+clean\s+-fd?\b"@,
            r"^git\s+checkout\s+\.\s*$"@,
            r"^git\s+rebase\s+-i\b"@,
        ],
        nested_shell: seq![
            ("^(sh|bash|zsh)$"@, r"(?:^|\s)-\w*c\s+([\s\S]+)$"@),
            ("(?i)^(pwsh|powershell)$"@, r"(?i)\s-c(?:ommand)?\s+([\s\S]+)$"@),
            ("(?i)^cmd$"@, r"(?i)\s/[ck]\s+([\s\S]+)$"@),
        ],
    }
}

impl View for ShellPatterns {
    type V = ShellPatternsView;

    closed spec fn view(&self) -> ShellPatternsView {
        ShellPatternsView {
            privileged_prefixes: key_views(self.privileged_prefixes@),
            privileged: key_views(self.privileged@),
            fs_destructive: key_views(self.fs_destructive@),
            pipe_destructive: key_views(self.pipe_destructive@),
            git_destructive: key_views(self.git_destructive@),
            nested_shell: pair_views(self.nested_shell@),
        }
    }
}

/// The pattern table.
fn patterns() -> (r: ShellPatterns)
    ensures
        r@ == shell_patterns(),
{
    let r = ShellPatterns {
        privileged_prefixes: vec![
            "sudo ",
            "su ",
            "chmod ",
            "chown ",
            "chgrp ",
            "mount ",
            "umount ",
            "kill ",
            "killall ",
            "systemctl ",
            "launchctl ",
            "shutdown",
            "reboot",
        ],
        privileged: vec![
            r"(?i)^(kill|stop-process|spps|taskkill)\b",
            r"(?i)(^|\s)-verb\s+runas\b",
            r"(?i)^((start|stop|restart|set|new|remove|suspend|resume)-service|sasv|spsv)\b",
            r"(?i)^sc\s+(stop|start|pause|continue|delete|config|create|failure|sdset)\b",
            r"(?i)^net\s+(stop|start|pause|continue)\b",
            r"(?i)^(stop-computer|restart-computer)\b",
            r"(?i)^(icacls|takeown|set-acl|runas)\b",
        ],
        fs_destructive: vec![
            r"^dd\s+",
            r"^truncate\b",
            r"^shred\b",
            r"^mkfs\b",
            r"^git\s+restore\s+(\.\s*$|--\s+\S+)",
            r"^git\s+checkout\s+--\s+\S+",
            r"^find\s+.*\s-delete\b",
            r"^find\s+.*\s-exec\s+.*\b(rm|shred|truncate|dd)\b",
            r"^xargs\s+.*\b(rm|shred|truncate|dd)\b",
            r"(?i)^remove-item\b",
            r"(?i)^(rm|rmdir|ri|del|erase|rd)\b",
            r"(?i)^(clear-content|clc)\b",
        ],
        pipe_destructive: vec![
            r"\|\s*xargs\b[^\n;&|]*\b(rm|shred|truncate|dd)\b",
            r"\|\s*(sh|bash|zsh)\b",
        ],
        git_destructive: vec![
            r"^git\s+reset\s+--hard\b",
            r"^git\s+push\s+(--force|-f)\b",
            r"^git\s+branch\s+-D\b",
            r"^git\s+clean\s+-fd?\b",
            r"^git\s+checkout\s+\.\s*$",
            r"^git\s+rebase\s+-i\b",
        ],
        nested_shell: vec![
            ("^(sh|bash|zsh)$", r"(?:^|\s)-\w*c\s+([\s\S]+)$"),
            ("(?i)^(pwsh|powershell)$", r"(?i)\s-c(?:ommand)?\s+([\s\S]+)$"),
            ("(?i)^cmd$", r"(?i)\s/[ck]\s+([\s\S]+)$"),
        ],
    };
    assert(r@.privileged_prefixes =~= shell_patterns().privileged_prefixes);
    assert(r@.privileged =~= shell_patterns().privileged);
    assert(r@.fs_destructive =~= shell_patterns().fs_destructive);
    assert(r@.pipe_destructive =~= shell_patterns().pipe_destructive);
    assert(r@.git_destructive =~= shell_patterns().git_destructive);
    assert(r@.nested_shell =~= shell_patterns().nested_shell);
    r
}

// ---------------------------------------------------------------------------
// Cutting a command into segments
// ---------------------------------------------------------------------------

/// Characters that end a statement, pipeline part, script block or substitution.
pub open spec fn is_separator(c: char) -> bool {
    c == '|' || c == ';' || c == '&' || c == '\n' || c == '(' || c == ')' || c == '{' || c == '}'
        || c == '`'
}

/// The stretches of `s` between separators, empty ones too.
pub open spec fn pieces(s: Seq<char>) -> Seq<Seq<char>>
    decreases s.len(),
{
    if s.len() == 0 {
        seq![Seq::empty()]
    } else {
        let before = pieces(s.drop_last());
        if is_separator(s.last()) {
            before.push(Seq::empty())
        } else {
            before.update(before.len() - 1, before.last().push(s.last()))
        }
    }
}

/// The trimmed texts that hold something, in order.
pub open spec fn trimmed_texts(v: Seq<Seq<char>>) -> Seq<Seq<char>>
    decreases v.len(),
{
    if v.len() == 0 {
        Seq::empty()
    } else {
        let rest = trimmed_texts(v.drop_last());
        if trim(v.last()).len() > 0 {
            rest.push(trim(v.last()))
        } else {
            rest
        }
    }
}

/// The trimmed segments of a command, without empty ones.
pub open spec fn raw_segments(cmd: Seq<char>) -> Seq<Seq<char>> {
    trimmed_texts(pieces(cmd))
}

proof fn lemma_pieces_nonempty(s: Seq<char>)
    ensures
        pieces(s).len() > 0,
    decreases s.len(),
{
    if s.len() > 0 {
        lemma_pieces_nonempty(s.drop_last());
    }
}

/// Splitting never drops content: put end to end, the pieces are the command
/// without its separators.
pub proof fn law_splitting_drops_nothing(s: Seq<char>)
    ensures
        pieces(s).flatten() == s.filter(|c: char| !is_separator(c)),
    decreases s.len(),
{
    let keep = |c: char| !is_separator(c);
    reveal(Seq::filter);
    if s.len() == 0 {
        assert(pieces(s).flatten() =~= Seq::empty()) by {
            pieces(s).lemma_flatten_one_element();
        }
        assert(s.filter(keep) =~= Seq::empty());
    } else {
        let init = s.drop_last();
        let before = pieces(init);
        lemma_pieces_nonempty(init);
        law_splitting_drops_nothing(init);
        if is_separator(s.last()) {
            before.lemma_flatten_push(Seq::empty());
            assert(pieces(s).flatten() =~= before.flatten());
        } else {
            let head = before.drop_last();
            assert(before =~= head.push(before.last()));
            head.lemma_flatten_push(before.last());
            head.lemma_flatten_push(before.last().push(s.last()));
            assert(pieces(s) =~= head.push(before.last().push(s.last())));
            assert(pieces(s).flatten() =~= before.flatten().push(s.last()));
        }
    }
}

/// Whether `c` separates segments.
fn separates(c: char) -> (r: bool)
    ensures
        r == is_separator(c),
{
    c == '|' || c == ';' || c == '&' || c == '\n' || c == '(' || c == ')' || c == '{' || c == '}'
        || c == '`'
}

/// The characters of a list of texts.
spec fn char_views(v: Seq<Vec<char>>) -> Seq<Seq<char>> {
    Seq::new(v.len(), |i: int| v[i]@)
}

/// Split a command into statement, pipeline, script-block and substitution
/// segments. Deliberately quote-naive: `$(...)` and backticks expand inside
/// double quotes, so quote-aware splitting would hide `echo "$(rm x)"`.
fn command_segments(cmd: &[char]) -> (r: Vec<Vec<char>>)
    ensures
        char_views(r@) == raw_segments(cmd@),
{
    let mut out: Vec<Vec<char>> = Vec::new();
    let mut piece: Vec<char> = Vec::new();
    let ghost mut done: Seq<Seq<char>> = Seq::empty();
    let mut i: usize = 0;
    assert(char_views(out@) =~= trimmed_texts(done));
    assert(done.push(piece@) =~= pieces(cmd@.take(0)));
    while i < cmd.len()
        invariant
            i <= cmd.len(),
            pieces(cmd@.take(i as int)) == done.push(piece@),
            char_views(out@) == trimmed_texts(done),
        decreases cmd.len() - i,
    {
        let c = cmd[i];
        proof {
            assert(cmd@.take(i + 1).drop_last() =~= cmd@.take(i as int));
        }
        if separates(c) {
            let ghost before = piece@;
            let segment = trimmed(piece.as_slice());
            let ghost listed = char_views(out@);
            proof {
                assert(done.push(before).drop_last() =~= done);
            }
            if segment.len() > 0 {
                out.push(segment);
                assert(char_views(out@) =~= listed.push(trim(before)));
            }
            proof {
                done = done.push(before);
            }
            piece = Vec::new();
            assert(pieces(cmd@.take(i + 1)) =~= done.push(piece@));
        } else {
            let ghost before = piece@;
            piece.push(c);
            assert(pieces(cmd@.take(i + 1)) =~= done.push(piece@));
        }
        i = i + 1;
    }
    assert(cmd@.take(i as int) =~= cmd@);
    let ghost listed = char_views(out@);
    let segment = trimmed(piece.as_slice());
    assert(done.push(piece@).drop_last() =~= done);
    if segment.len() > 0 {
        out.push(segment);
        assert(char_views(out@) =~= listed.push(trim(piece@)));
    }
    out
}

// ---------------------------------------------------------------------------
// The head of a segment
// ---------------------------------------------------------------------------

/// The first token of `rest` and what follows it. A leading quoted form counts
/// as one token; `None` when there is no token, or a quote that is empty or not
/// closed.
pub open spec fn head_and_tail(rest: Seq<char>) -> Option<(Seq<char>, Seq<char>)> {
    let t = trim_start(rest);
    if t.len() == 0 {
        None
    } else if t[0] == '\'' || t[0] == '"' {
        let quote = t[0];
        let after = t.skip(1);
        let close = first_where(after, |c: char| c == quote);
        if !after.contains(quote) || close == 0 {
            None
        } else {
            Some((after.take(close), trim_start(after.skip(close + 1))))
        }
    } else {
        let end = first_where(t, |c: char| is_space(c));
        Some((t.take(end), trim_start(t.skip(end))))
    }
}

/// Split off the first token of `rest`, honoring a leading quoted form, else the
/// first run of non-space.
fn split_head(rest: &[char]) -> (r: Option<(Vec<char>, Vec<char>)>)
    ensures
        match r {
            Some((head, tail)) => head_and_tail(rest@) == Some((head@, tail@)),
            None => head_and_tail(rest@) is None,
        },
{
    let t = trimmed_start(rest);
    if t.len() == 0 {
        return None;
    }
    let quote = t[0];
    if quote == '\'' || quote == '"' {
        let after = cut(t.as_slice(), 1, t.len());
        assert(after@ =~= t@.skip(1));
        let close = find_char(after.as_slice(), quote);
        if close == after.len() || close == 0 {
            return None;
        }
        let head = cut(after.as_slice(), 0, close);
        let tail = cut(after.as_slice(), close + 1, after.len());
        assert(head@ =~= after@.take(close as int));
        assert(tail@ =~= after@.skip(close + 1));
        return Some((head, trimmed_start(tail.as_slice())));
    }
    let end = find_space(t.as_slice());
    let head = cut(t.as_slice(), 0, end);
    let tail = cut(t.as_slice(), end, t.len());
    assert(head@ =~= t@.take(end as int));
    assert(tail@ =~= t@.skip(end as int));
    Some((head, trimmed_start(tail.as_slice())))
}

/// Option-ish arguments a wrapper command carries: `-x`, `KEY=V`, durations
/// like `30s`.
pub open spec fn is_option(token: Seq<char>) -> bool {
    ||| token.len() > 1 && token[0] == '-'
    ||| token.contains('=')
    ||| is_duration(token)
}

/// A unit of time: seconds, minutes, hours or days.
pub open spec fn is_unit(c: char) -> bool {
    c == 's' || c == 'm' || c == 'h' || c == 'd'
}

/// A bare number, or a number and one unit: one or more digits, then at most one of
/// the four letters.
pub open spec fn is_duration(token: Seq<char>) -> bool {
    is_number(token) || (token.len() > 0 && is_unit(token.last()) && is_number(token.drop_last()))
}

/// One or more digits.
pub open spec fn is_number(s: Seq<char>) -> bool {
    s.len() > 0 && forall|i: int| 0 <= i < s.len() ==> is_digit(#[trigger] s[i])
}

pub open spec fn is_digit(c: char) -> bool {
    '0' <= c <= '9'
}

fn option_like(token: &[char]) -> (r: bool)
    ensures
        r == is_option(token@),
{
    if token.len() > 1 && token[0] == '-' {
        return true;
    }
    if find_char(token, '=') < token.len() {
        return true;
    }
    if token.len() > 0 {
        let c = token[token.len() - 1];
        if c == 's' || c == 'm' || c == 'h' || c == 'd' {
            assert(!is_digit(token@[token@.len() - 1]));
            assert(token@.take(token@.len() - 1) =~= token@.drop_last());
            return starts_with_digits(token, token.len() - 1);
        }
    }
    assert(token@.take(token@.len() as int) =~= token@);
    starts_with_digits(token, token.len())
}

/// Whether the first `len` characters are one or more digits.
fn starts_with_digits(token: &[char], len: usize) -> (r: bool)
    requires
        len <= token.len(),
    ensures
        r == is_number(token@.take(len as int)),
{
    let ghost number = token@.take(len as int);
    let mut i: usize = 0;
    while i < len
        invariant
            i <= len <= token.len(),
            number == token@.take(len as int),
            forall|k: int| 0 <= k < i ==> is_digit(#[trigger] number[k]),
        decreases len - i,
    {
        assert(number[i as int] == token@[i as int]);
        if !('0' <= token[i] && token[i] <= '9') {
            assert(!is_digit(number[i as int]));
            return false;
        }
        i = i + 1;
    }
    len > 0
}

/// What is left of `tail` once the leading option-ish arguments are dropped.
pub open spec fn without_options(tail: Seq<char>) -> Seq<char>
    decreases tail.len(),
    via without_options_ends
{
    let rest = trim_start(tail);
    let token = rest.take(first_where(rest, |c: char| is_space(c)));
    if token.len() > 0 && is_option(token) {
        without_options(rest.skip(token.len() as int))
    } else {
        rest
    }
}

#[via_fn]
proof fn without_options_ends(tail: Seq<char>) {
    lemma_trim_start_suffix(tail);
    lemma_first_where_bound(trim_start(tail), |c: char| is_space(c));
}

proof fn lemma_first_where_bound(s: Seq<char>, f: spec_fn(char) -> bool)
    ensures
        0 <= first_where(s, f) <= s.len(),
    decreases s.len(),
{
    if s.len() > 0 && !f(s[0]) {
        lemma_first_where_bound(s.skip(1), f);
    }
}

/// Stripping takes away a front and nothing else: what is left is a suffix of the
/// tail, starts with no white space, and starts with no option-ish argument, so
/// stripping it again changes nothing.
pub proof fn law_stripping_leaves_a_bare_suffix(tail: Seq<char>)
    ensures
        without_options(tail).len() <= tail.len(),
        without_options(tail) == tail.skip(tail.len() - without_options(tail).len()),
        trim_start(without_options(tail)) == without_options(tail),
        first_token(without_options(tail)).len() > 0 ==> !is_option(
            first_token(without_options(tail)),
        ),
        without_options(without_options(tail)) == without_options(tail),
    decreases tail.len(),
{
    let rest = trim_start(tail);
    let end = first_where(rest, |c: char| is_space(c));
    let token = rest.take(end);
    lemma_trim_start_suffix(tail);
    lemma_first_where_bound(rest, |c: char| is_space(c));
    if token.len() > 0 && is_option(token) {
        let after = rest.skip(token.len() as int);
        law_stripping_leaves_a_bare_suffix(after);
        let n = without_options(tail).len();
        assert(after.skip(after.len() - n) =~= tail.skip(tail.len() - n));
    }
}

/// Drop leading option-ish arguments a wrapper command carries: `-x`, `KEY=V`,
/// durations like `30s`. What is left is a suffix of the tail that starts with no white
/// space, and stripping it again changes nothing.
pub fn strip_leading_options(tail: &str) -> (r: String)
    ensures
        r@ == without_options(tail@),
        r@.len() <= tail@.len() && r@ == tail@.skip(tail@.len() - r@.len()),
        r@ == trim_start(r@),
        without_options(r@) == r@,
{
    let chars = chars_of(tail);
    let mut rest = trimmed_start(chars.as_slice());
    let ghost mut source = tail@;
    loop
        invariant
            rest@ == trim_start(source),
            without_options(source) == without_options(tail@),
        decreases rest.len(),
    {
        let end = find_space(rest.as_slice());
        let token = cut(rest.as_slice(), 0, end);
        assert(token@ =~= rest@.take(end as int));
        if token.len() == 0 || !option_like(token.as_slice()) {
            proof {
                law_stripping_leaves_a_bare_suffix(tail@);
            }
            return string_of(rest.as_slice());
        }
        let after = cut(rest.as_slice(), end, rest.len());
        assert(after@ =~= rest@.skip(end as int));
        proof {
            lemma_trim_start_suffix(after@);
            source = after@;
        }
        rest = trimmed_start(after.as_slice());
    }
}

/// Commands that defer to the real command later in the segment.
pub open spec fn is_wrapper(name: Seq<char>) -> bool {
    name == "nohup"@ || name == "nice"@ || name == "time"@ || name == "timeout"@ || name == "env"@
        || name == "command"@ || name == "exec"@ || name == "stdbuf"@
}

fn wraps(name: &[char]) -> (r: bool)
    ensures
        r == is_wrapper(name@),
{
    chars_eq(name, "nohup") || chars_eq(name, "nice") || chars_eq(name, "time") || chars_eq(
        name,
        "timeout",
    ) || chars_eq(name, "env") || chars_eq(name, "command") || chars_eq(name, "exec") || chars_eq(
        name,
        "stdbuf",
    )
}

/// `s` without the characters that quote or escape parts of a name.
pub open spec fn unquoted(s: Seq<char>) -> Seq<char> {
    s.filter(|c: char| c != '\'' && c != '"' && c != '^')
}

/// The command a head token names: quotes unwrapped, a leading escape, path
/// prefix and `.exe` suffix dropped.
pub open spec fn bare_name(head: Seq<char>) -> Seq<char> {
    let a = unquoted(head);
    let b = if a.len() > 0 && a[0] == '\\' {
        a.skip(1)
    } else {
        a
    };
    let c = after_last(b, |c: char| c == '/' || c == '\\');
    if has_suffix(lower(c), ".exe"@) {
        c.take(c.len() - 4)
    } else {
        c
    }
}

proof fn lemma_after_last(s: Seq<char>, f: spec_fn(char) -> bool, i: int)
    requires
        0 <= i <= s.len(),
        forall|k: int| i <= k < s.len() ==> !f(#[trigger] s[k]),
        i > 0 ==> f(s[i - 1]),
    ensures
        after_last(s, f) == s.skip(i),
    decreases s.len(),
{
    if s.len() == 0 {
        assert(s.skip(i) =~= s);
    } else if i == s.len() {
        assert(s.skip(i) =~= Seq::empty());
    } else {
        assert(!f(s[s.len() - 1]));
        if i > 0 {
            assert(f(s[i - 1]));
            lemma_after_last(s.drop_last(), f, i);
            assert(s.drop_last().skip(i).push(s.last()) =~= s.skip(i));
        } else {
            assert(s.skip(0) =~= s);
        }
    }
}

fn base_name(s: &[char]) -> (r: Vec<char>)
    ensures
        r@ == after_last(s@, |c: char| c == '/' || c == '\\'),
{
    let mut i: usize = s.len();
    while i > 0 && s[i - 1] != '/' && s[i - 1] != '\\'
        invariant
            i <= s.len(),
            forall|k: int| i <= k < s.len() ==> #[trigger] s@[k] != '/' && s@[k] != '\\',
        decreases i,
    {
        i = i - 1;
    }
    proof {
        lemma_after_last(s@, |c: char| c == '/' || c == '\\', i as int);
        assert(s@.subrange(i as int, s@.len() as int) =~= s@.skip(i as int));
    }
    cut(s, i, s.len())
}

fn unquote(s: &[char]) -> (r: Vec<char>)
    ensures
        r@ == unquoted(s@),
{
    let ghost keep = |c: char| c != '\'' && c != '"' && c != '^';
    let mut out: Vec<char> = Vec::new();
    let mut i: usize = 0;
    proof {
        reveal(Seq::filter);
        assert(s@.take(0).filter(keep) =~= Seq::empty());
    }
    while i < s.len()
        invariant
            i <= s.len(),
            keep == (|c: char| c != '\'' && c != '"' && c != '^'),
            out@ == s@.take(i as int).filter(keep),
        decreases s.len() - i,
    {
        proof {
            reveal(Seq::filter);
            assert(s@.take(i + 1).drop_last() =~= s@.take(i as int));
        }
        if s[i] != '\'' && s[i] != '"' && s[i] != '^' {
            out.push(s[i]);
        }
        i = i + 1;
    }
    assert(s@.take(i as int) =~= s@);
    out
}

fn command_name(head: &[char]) -> (r: Vec<char>)
    ensures
        r@ == bare_name(head@),
{
    let a = unquote(head);
    let b = if a.len() > 0 && a[0] == '\\' {
        let rest = cut(a.as_slice(), 1, a.len());
        assert(rest@ =~= a@.skip(1));
        rest
    } else {
        a
    };
    let c = base_name(b.as_slice());
    let low = lowered(c.as_slice());
    proof {
        reveal_strlit(".exe");
    }
    if ends_with(low.as_slice(), ".exe") {
        let r = cut(c.as_slice(), 0, c.len() - 4);
        assert(r@ =~= c@.take(c@.len() - 4));
        r
    } else {
        c
    }
}

/// `segment` with its head in canonical form, wrapper commands and their
/// arguments skipped, at most `rounds` of them.
pub open spec fn normalized(segment: Seq<char>, rounds: nat) -> Seq<char>
    decreases rounds,
{
    if rounds == 0 {
        segment
    } else {
        match head_and_tail(segment) {
            None => segment,
            Some((head, tail)) => {
                let name = bare_name(head);
                if is_wrapper(lower(name)) {
                    normalized(without_options(tail), (rounds - 1) as nat)
                } else if tail.len() == 0 {
                    name
                } else {
                    name.push(' ') + tail
                }
            },
        }
    }
}

/// How many wrapper commands are looked through.
pub const MAX_WRAPPERS: usize = 5;

/// Canonicalize a segment's first token: unwrap quotes, drop a leading escape,
/// path prefix and `.exe` suffix, and skip wrapper commands with their
/// option-ish arguments. Only the upgrade checks see this.
fn normalize_segment_head(segment: Vec<char>) -> (r: Vec<char>)
    ensures
        r@ == normalized(segment@, MAX_WRAPPERS as nat),
{
    let ghost source = segment@;
    let mut rest = segment;
    let mut round: usize = 0;
    while round < MAX_WRAPPERS
        invariant
            round <= MAX_WRAPPERS,
            source == segment@,
            normalized(source, MAX_WRAPPERS as nat) == normalized(
                rest@,
                (MAX_WRAPPERS - round) as nat,
            ),
        decreases MAX_WRAPPERS - round,
    {
        match split_head(rest.as_slice()) {
            None => return rest,
            Some((head, tail)) => {
                let mut name = command_name(head.as_slice());
                if wraps(lowered(name.as_slice()).as_slice()) {
                    let stripped = strip_leading_options(string_of(tail.as_slice()).as_str());
                    rest = chars_of(stripped.as_str());
                } else {
                    if tail.len() > 0 {
                        name.push(' ');
                        let mut tail = tail;
                        name.append(&mut tail);
                    }
                    return name;
                }
            },
        }
        round = round + 1;
    }
    rest
}

// ---------------------------------------------------------------------------
// Shells inside shells
// ---------------------------------------------------------------------------

/// The command inside the captured payload: trimmed, and without the quotes
/// when the whole of it is one quoted string.
pub open spec fn payload_of(capture: Seq<char>) -> Seq<char> {
    let p = trim(capture);
    if p.len() >= 2 && (p[0] == '\'' || p[0] == '"') && p.last() == p[0] {
        p.subrange(1, p.len() - 1)
    } else {
        p
    }
}

/// The command inside the captured payload.
pub fn unwrap_payload(capture: &str) -> (r: String)
    ensures
        r@ == payload_of(capture@),
{
    let p = trimmed(chars_of(capture).as_slice());
    if p.len() >= 2 && (p[0] == '\'' || p[0] == '"') && p[p.len() - 1] == p[0] {
        string_of(cut(p.as_slice(), 1, p.len() - 1).as_slice())
    } else {
        string_of(p.as_slice())
    }
}

/// The command a segment hands to another shell: the first table row whose head
/// pattern matches the head decides.
pub open spec fn nested_payload(
    segment: Seq<char>,
    rows: Seq<(Seq<char>, Seq<char>)>,
) -> Option<Seq<char>>
    decreases rows.len(),
{
    let head = first_token(segment);
    if rows.len() == 0 || head.len() == 0 {
        None
    } else if regex_found(rows[0].0, head) {
        match regex_group(rows[0].1, segment) {
            Some(capture) => Some(payload_of(capture)),
            None => None,
        }
    } else {
        nested_payload(segment, rows.skip(1))
    }
}

fn nested_shell_payload(segment: &[char], p: &ShellPatterns) -> (r: Option<String>)
    ensures
        opt(r) == nested_payload(segment@, p@.nested_shell),
{
    let start = trimmed_start(segment);
    let end = find_space(start.as_slice());
    let head = cut(start.as_slice(), 0, end);
    assert(head@ =~= first_token(segment@));
    if head.len() == 0 {
        return None;
    }
    let head_text = string_of(head.as_slice());
    let segment_text = string_of(segment);
    let ghost rows = p@.nested_shell;
    let mut i: usize = 0;
    assert(rows.skip(0) =~= rows);
    while i < p.nested_shell.len()
        invariant
            i <= p.nested_shell.len(),
            rows == p@.nested_shell,
            head_text@ == first_token(segment@),
            head_text@.len() > 0,
            segment_text@ == segment@,
            nested_payload(segment@, rows) == nested_payload(segment@, rows.skip(i as int)),
        decreases p.nested_shell.len() - i,
    {
        let row = p.nested_shell[i];
        assert(rows.skip(i as int)[0] == (row.0@, row.1@));
        if regex_is_match(row.0, head_text.as_str()) {
            return match regex_capture(row.1, segment_text.as_str()) {
                Some(capture) => Some(unwrap_payload(capture.as_str())),
                None => None,
            };
        }
        assert(rows.skip(i as int).skip(1) =~= rows.skip(i + 1));
        i = i + 1;
    }
    None
}

/// All segments of a command in canonical form, each followed by the segments
/// of the shell command inside it, `depth` levels deep.
pub open spec fn all_segments(cmd: Seq<char>, depth: nat) -> Seq<Seq<char>>
    decreases depth, 1nat, 0nat,
{
    segments_of(raw_segments(cmd), depth)
}

pub open spec fn segments_of(raw: Seq<Seq<char>>, depth: nat) -> Seq<Seq<char>>
    decreases depth, 0nat, raw.len(),
{
    if raw.len() == 0 {
        Seq::empty()
    } else {
        let segment = normalized(raw.last(), MAX_WRAPPERS as nat);
        let listed = segments_of(raw.drop_last(), depth).push(segment);
        if depth == 0 {
            listed
        } else {
            match nested_payload(segment, shell_patterns().nested_shell) {
                Some(payload) => listed + all_segments(payload, (depth - 1) as nat),
                None => listed,
            }
        }
    }
}

fn scan_segments(cmd: &[char], depth: usize, p: &ShellPatterns) -> (r: Vec<Vec<char>>)
    requires
        p@ == shell_patterns(),
    ensures
        char_views(r@) == all_segments(cmd@, depth as nat),
    decreases depth,
{
    let raw = command_segments(cmd);
    let ghost all = raw_segments(cmd@);
    let mut out: Vec<Vec<char>> = Vec::new();
    let mut i: usize = 0;
    assert(char_views(out@) =~= segments_of(all.take(0), depth as nat));
    while i < raw.len()
        invariant
            i <= raw.len(),
            p@ == shell_patterns(),
            char_views(raw@) == all,
            char_views(out@) == segments_of(all.take(i as int), depth as nat),
        decreases raw.len() - i,
    {
        let ghost listed = char_views(out@);
        let piece = cut(raw[i].as_slice(), 0, raw[i].len());
        assert(piece@ =~= all[i as int]);
        proof {
            assert(all.take(i + 1).drop_last() =~= all.take(i as int));
            assert(all.take(i + 1).last() == all[i as int]);
        }
        let segment = normalize_segment_head(piece);
        let payload = if depth == 0 {
            None
        } else {
            nested_shell_payload(segment.as_slice(), p)
        };
        let ghost added = segment@;
        out.push(segment);
        assert(char_views(out@) =~= listed.push(added));
        if let Some(command) = payload {
            let mut inner = scan_segments(chars_of(command.as_str()).as_slice(), depth - 1, p);
            let ghost deeper = char_views(inner@);
            out.append(&mut inner);
            assert(char_views(out@) =~= listed.push(added) + deeper);
        }
        i = i + 1;
    }
    assert(all.take(i as int) =~= all);
    out
}

// ---------------------------------------------------------------------------
// The category of a command
// ---------------------------------------------------------------------------

/// The segments that decide a command's category. A backtick is both a split
/// boundary (substitution) and an in-name escape (R`M runs rm), so a command
/// that holds one is looked at with the backticks taken out, too.
pub open spec fn considered(cmd: Seq<char>) -> Seq<Seq<char>> {
    let segments = all_segments(cmd, 2);
    if cmd.contains('`') {
        segments + all_segments(cmd.filter(|c: char| c != '`'), 2)
    } else {
        segments
    }
}

/// A segment that runs with, or asks for, raised privileges.
pub open spec fn is_privileged(segment: Seq<char>) -> bool {
    let p = shell_patterns();
    ||| exists|i: int|
        0 <= i < p.privileged_prefixes.len() && (#[trigger] p.privileged_prefixes[i]).is_prefix_of(
            lower(segment),
        )
    ||| any_found(p.privileged, segment)
}

/// The category that the findings about a command make, the gravest first.
pub open spec fn category_for(
    privileged: bool,
    fs_destructive: bool,
    pipe_destructive: bool,
    git_destructive: bool,
) -> ToolCategory {
    if privileged {
        ToolCategory::Privileged
    } else if fs_destructive || pipe_destructive {
        ToolCategory::FsDestructive
    } else if git_destructive {
        ToolCategory::GitDestructive
    } else {
        ToolCategory::ShellUnsafe
    }
}

/// The category of a shell command.
pub open spec fn bash_category(cmd: Seq<char>) -> ToolCategory {
    let p = shell_patterns();
    let segments = considered(cmd);
    category_for(
        exists|i: int| 0 <= i < segments.len() && is_privileged(#[trigger] segments[i]),
        exists|i: int|
            0 <= i < segments.len() && any_found(p.fs_destructive, #[trigger] segments[i]),
        any_found(p.pipe_destructive, trim(cmd)),
        exists|i: int|
            0 <= i < segments.len() && any_found(p.git_destructive, #[trigger] segments[i]),
    )
}

/// How grave a category of shell commands is.
pub open spec fn gravity(category: ToolCategory) -> int {
    match category {
        ToolCategory::Privileged => 3,
        ToolCategory::FsDestructive => 2,
        ToolCategory::GitDestructive => 1,
        _ => 0,
    }
}

/// The graver of two.
pub open spec fn graver(a: ToolCategory, b: ToolCategory) -> int {
    if gravity(a) < gravity(b) {
        gravity(b)
    } else {
        gravity(a)
    }
}

/// The command that runs `a` and then `b`.
pub open spec fn in_sequence(a: Seq<char>, b: Seq<char>) -> Seq<char> {
    a + "; "@ + b
}

proof fn lemma_in_sequence(a: Seq<char>, b: Seq<char>)
    ensures
        in_sequence(a, b) == beside(a, seq![' '] + b),
{
    reveal_strlit("; ");
    assert(in_sequence(a, b) =~= beside(a, seq![' '] + b));
}

proof fn lemma_space_in_front(s: Seq<char>)
    ensures
        trim(seq![' '] + s) == trim(s),
{
    assert((seq![' '] + s).skip(1) =~= s);
}

proof fn lemma_pieces_beside(a: Seq<char>, b: Seq<char>)
    ensures
        pieces(beside(a, b)) == pieces(a) + pieces(b),
    decreases b.len(),
{
    let all = beside(a, b);
    lemma_pieces_nonempty(b);
    if b.len() == 0 {
        assert(all.drop_last() =~= a);
        assert(pieces(all) =~= pieces(a) + pieces(b));
    } else {
        let init = b.drop_last();
        lemma_pieces_beside(a, init);
        lemma_pieces_nonempty(init);
        assert(all.drop_last() =~= beside(a, init));
        assert(all.last() == b.last());
        assert(pieces(all) =~= pieces(a) + pieces(b));
    }
}

/// White space in front of a command goes to its first piece.
proof fn lemma_pieces_indented(b: Seq<char>)
    ensures
        pieces(b).len() > 0,
        pieces(seq![' '] + b) == pieces(b).update(0, seq![' '] + pieces(b)[0]),
    decreases b.len(),
{
    let all = seq![' '] + b;
    lemma_pieces_nonempty(b);
    if b.len() == 0 {
        assert(all.drop_last() =~= Seq::empty());
        assert(all.last() == ' ');
        assert(Seq::<char>::empty().push(' ') =~= seq![' '] + Seq::<char>::empty());
        assert(pieces(all.drop_last()) =~= seq![Seq::<char>::empty()]);
        assert(pieces(all) =~= pieces(b).update(0, seq![' '] + pieces(b)[0]));
    } else {
        let init = b.drop_last();
        let before = pieces(init);
        lemma_pieces_indented(init);
        assert(all.drop_last() =~= seq![' '] + init);
        assert(all.last() == b.last());
        assert((seq![' '] + before[0]).push(b.last()) =~= seq![' '] + before[0].push(b.last()));
        assert(pieces(all) =~= pieces(b).update(0, seq![' '] + pieces(b)[0]));
    }
}

proof fn lemma_trimmed_texts_add(v: Seq<Seq<char>>, w: Seq<Seq<char>>)
    ensures
        trimmed_texts(v + w) == trimmed_texts(v) + trimmed_texts(w),
    decreases w.len(),
{
    if w.len() == 0 {
        assert(v + w =~= v);
        assert(trimmed_texts(v) + trimmed_texts(w) =~= trimmed_texts(v));
    } else {
        lemma_trimmed_texts_add(v, w.drop_last());
        assert((v + w).drop_last() =~= v + w.drop_last());
        assert((v + w).last() == w.last());
        assert(trimmed_texts(v + w) =~= trimmed_texts(v) + trimmed_texts(w));
    }
}

proof fn lemma_trimmed_texts_same(v: Seq<Seq<char>>, w: Seq<Seq<char>>)
    requires
        v.len() == w.len(),
        forall|i: int| 0 <= i < v.len() ==> trim(#[trigger] v[i]) == trim(w[i]),
    ensures
        trimmed_texts(v) == trimmed_texts(w),
    decreases v.len(),
{
    if v.len() > 0 {
        lemma_trimmed_texts_same(v.drop_last(), w.drop_last());
        assert(trim(v[v.len() - 1]) == trim(w[w.len() - 1]));
    }
}

proof fn lemma_segments_add(v: Seq<Seq<char>>, w: Seq<Seq<char>>, depth: nat)
    ensures
        segments_of(v + w, depth) == segments_of(v, depth) + segments_of(w, depth),
    decreases w.len(),
{
    if w.len() == 0 {
        assert(v + w =~= v);
        assert(segments_of(v, depth) + segments_of(w, depth) =~= segments_of(v, depth));
    } else {
        lemma_segments_add(v, w.drop_last(), depth);
        assert((v + w).drop_last() =~= v + w.drop_last());
        assert((v + w).last() == w.last());
        assert(segments_of(v + w, depth) =~= segments_of(v, depth) + segments_of(w, depth));
    }
}

/// The segments of two commands in sequence are those of the first and those of the
/// second.
pub proof fn law_sequence_has_both_segments(a: Seq<char>, b: Seq<char>, depth: nat)
    ensures
        all_segments(in_sequence(a, b), depth) == all_segments(a, depth) + all_segments(b, depth),
{
    let indented = seq![' '] + b;
    lemma_in_sequence(a, b);
    lemma_pieces_beside(a, indented);
    lemma_pieces_indented(b);
    lemma_trimmed_texts_add(pieces(a), pieces(indented));
    assert forall|i: int| 0 <= i < pieces(b).len() implies trim(#[trigger] pieces(indented)[i])
        == trim(pieces(b)[i]) by {
        lemma_space_in_front(pieces(b)[0]);
    }
    lemma_trimmed_texts_same(pieces(indented), pieces(b));
    lemma_segments_add(raw_segments(a), raw_segments(b), depth);
}

proof fn lemma_considered_in_sequence(a: Seq<char>, b: Seq<char>, s: Seq<char>)
    ensures
        considered(in_sequence(a, b)).contains(s) <==> considered(a).contains(s) || considered(
            b,
        ).contains(s),
{
    let keep = |c: char| c != '`';
    let all = in_sequence(a, b);
    let sep = "; "@;
    reveal_strlit("; ");
    assert(all.contains('`') <==> a.contains('`') || b.contains('`')) by {
        if a.contains('`') {
            let i = choose|i: int| 0 <= i < a.len() && a[i] == '`';
            assert(all[i] == '`');
        }
        if b.contains('`') {
            let i = choose|i: int| 0 <= i < b.len() && b[i] == '`';
            assert(all[a.len() + 2 + i] == '`');
        }
        if all.contains('`') {
            let i = choose|i: int| 0 <= i < all.len() && all[i] == '`';
            if i < a.len() {
                assert(a[i] == '`');
            } else if i < a.len() + 2 {
                assert(sep[i - a.len()] == '`');
            } else {
                assert(b[i - a.len() - 2] == '`');
            }
        }
    }
    assert(all.filter(keep) == in_sequence(a.filter(keep), b.filter(keep))) by {
        Seq::filter_distributes_over_add(a + sep, b, keep);
        Seq::filter_distributes_over_add(a, sep, keep);
        lemma_nothing_filtered(sep, keep);
    }
    if !a.contains('`') {
        lemma_nothing_filtered(a, keep);
    }
    if !b.contains('`') {
        lemma_nothing_filtered(b, keep);
    }
    law_sequence_has_both_segments(a, b, 2);
    law_sequence_has_both_segments(a.filter(keep), b.filter(keep), 2);
    lemma_contains_add(all_segments(a, 2), all_segments(b, 2), s);
    lemma_contains_add(all_segments(a.filter(keep), 2), all_segments(b.filter(keep), 2), s);
    lemma_contains_add(all_segments(a, 2), all_segments(a.filter(keep), 2), s);
    lemma_contains_add(all_segments(b, 2), all_segments(b.filter(keep), 2), s);
    lemma_contains_add(all_segments(all, 2), all_segments(all.filter(keep), 2), s);
}

proof fn lemma_nothing_filtered(s: Seq<char>, keep: spec_fn(char) -> bool)
    requires
        forall|i: int| 0 <= i < s.len() ==> keep(#[trigger] s[i]),
    ensures
        s.filter(keep) == s,
    decreases s.len(),
{
    reveal(Seq::filter);
    if s.len() > 0 {
        assert(keep(s[s.len() - 1]));
        lemma_nothing_filtered(s.drop_last(), keep);
        assert(s.drop_last().push(s.last()) =~= s);
    } else {
        assert(s.filter(keep) =~= s);
    }
}

proof fn lemma_contains_add(v: Seq<Seq<char>>, w: Seq<Seq<char>>, s: Seq<char>)
    ensures
        (v + w).contains(s) <==> v.contains(s) || w.contains(s),
{
    if v.contains(s) {
        let i = choose|i: int| 0 <= i < v.len() && v[i] == s;
        assert((v + w)[i] == s);
    }
    if w.contains(s) {
        let i = choose|i: int| 0 <= i < w.len() && w[i] == s;
        assert((v + w)[v.len() + i] == s);
    }
}

/// Some segment that decides the category of `cmd` is one that `f` picks.
spec fn some_considered(cmd: Seq<char>, f: spec_fn(Seq<char>) -> bool) -> bool {
    exists|i: int| 0 <= i < considered(cmd).len() && f(#[trigger] considered(cmd)[i])
}

proof fn lemma_some_in_sequence(a: Seq<char>, b: Seq<char>, f: spec_fn(Seq<char>) -> bool)
    ensures
        some_considered(in_sequence(a, b), f) == (some_considered(a, f) || some_considered(b, f)),
{
    let all = considered(in_sequence(a, b));
    let of_a = considered(a);
    let of_b = considered(b);
    if some_considered(in_sequence(a, b), f) {
        let i = choose|i: int| 0 <= i < all.len() && f(#[trigger] all[i]);
        lemma_considered_in_sequence(a, b, all[i]);
        assert(all.contains(all[i]));
        if of_a.contains(all[i]) {
            let k = choose|k: int| 0 <= k < of_a.len() && of_a[k] == all[i];
            assert(f(of_a[k]));
        } else {
            let k = choose|k: int| 0 <= k < of_b.len() && of_b[k] == all[i];
            assert(f(of_b[k]));
        }
    }
    if some_considered(a, f) {
        let i = choose|i: int| 0 <= i < of_a.len() && f(#[trigger] of_a[i]);
        lemma_considered_in_sequence(a, b, of_a[i]);
        assert(of_a.contains(of_a[i]));
        let k = choose|k: int| 0 <= k < all.len() && all[k] == of_a[i];
        assert(f(all[k]));
    }
    if some_considered(b, f) {
        let i = choose|i: int| 0 <= i < of_b.len() && f(#[trigger] of_b[i]);
        lemma_considered_in_sequence(a, b, of_b[i]);
        assert(of_b.contains(of_b[i]));
        let k = choose|k: int| 0 <= k < all.len() && all[k] == of_b[i];
        assert(f(all[k]));
    }
}

/// Trimmed, two commands in sequence still stand beside a semicolon.
proof fn lemma_trim_in_sequence(a: Seq<char>, b: Seq<char>)
    ensures
        trim(in_sequence(a, b)) == beside(trim_start(a), trim_end(seq![' '] + b)),
        trim(trim_start(a)) == trim(a),
        trim(trim_end(seq![' '] + b)) == trim(b),
{
    let indented = seq![' '] + b;
    lemma_in_sequence(a, b);
    assert(beside(a, indented) =~= a + (seq![';'] + indented));
    lemma_trim_start_stops(a, seq![';'] + indented);
    assert(trim_start(a) + (seq![';'] + indented) =~= trim_start(a).push(';') + indented);
    lemma_trim_end_stops(trim_start(a).push(';'), indented);
    lemma_trim_start_suffix(a);
    lemma_trim_of_trim_end(indented);
    lemma_space_in_front(b);
}

proof fn lemma_category_in_sequence(a: Seq<char>, b: Seq<char>)
    requires
        ({
            let pipes = shell_patterns().pipe_destructive;
            any_found(pipes, trim(in_sequence(a, b))) == (any_found(pipes, trim(a)) || any_found(
                pipes,
                trim(b),
            ))
        }),
    ensures
        gravity(bash_category(in_sequence(a, b))) == graver(bash_category(a), bash_category(b)),
{
    let p = shell_patterns();
    let privileged = |s: Seq<char>| is_privileged(s);
    let destroys = |s: Seq<char>| any_found(p.fs_destructive, s);
    let rewrites = |s: Seq<char>| any_found(p.git_destructive, s);
    lemma_some_in_sequence(a, b, privileged);
    lemma_some_in_sequence(a, b, destroys);
    lemma_some_in_sequence(a, b, rewrites);
    lemma_category(a);
    lemma_category(b);
    lemma_category(in_sequence(a, b));
}

proof fn lemma_category(cmd: Seq<char>)
    ensures
        bash_category(cmd) == category_for(
            some_considered(cmd, |s: Seq<char>| is_privileged(s)),
            some_considered(cmd, |s: Seq<char>| any_found(shell_patterns().fs_destructive, s)),
            any_found(shell_patterns().pipe_destructive, trim(cmd)),
            some_considered(cmd, |s: Seq<char>| any_found(shell_patterns().git_destructive, s)),
        ),
{
    let all = considered(cmd);
    let p = shell_patterns();
    let privileged = |s: Seq<char>| is_privileged(s);
    let destroys = |s: Seq<char>| any_found(p.fs_destructive, s);
    let rewrites = |s: Seq<char>| any_found(p.git_destructive, s);
    assert(forall|i: int| is_privileged(#[trigger] all[i]) == privileged(all[i]));
    assert(forall|i: int| any_found(p.fs_destructive, #[trigger] all[i]) == destroys(all[i]));
    assert(forall|i: int| any_found(p.git_destructive, #[trigger] all[i]) == rewrites(all[i]));
}

/// The category that the findings about a command make: `privileged`, then
/// `fs_destructive`, then `git_destructive`, then `shell_unsafe`.
pub fn category_of_findings(
    privileged: bool,
    fs_destructive: bool,
    pipe_destructive: bool,
    git_destructive: bool,
) -> (r: ToolCategory)
    ensures
        r == category_for(privileged, fs_destructive, pipe_destructive, git_destructive),
        r is Privileged || r is FsDestructive || r is GitDestructive || r is ShellUnsafe,
{
    if privileged {
        ToolCategory::Privileged
    } else if fs_destructive || pipe_destructive {
        ToolCategory::FsDestructive
    } else if git_destructive {
        ToolCategory::GitDestructive
    } else {
        ToolCategory::ShellUnsafe
    }
}

fn is_privileged_segment(segment: &[char], p: &ShellPatterns) -> (r: bool)
    requires
        p@ == shell_patterns(),
    ensures
        r == is_privileged(segment@),
{
    let low = lowered(segment);
    let ghost prefixes = p@.privileged_prefixes;
    let mut i: usize = 0;
    while i < p.privileged_prefixes.len()
        invariant
            i <= p.privileged_prefixes.len(),
            p@ == shell_patterns(),
            prefixes == p@.privileged_prefixes,
            low@ == lower(segment@),
            forall|k: int| 0 <= k < i ==> !(#[trigger] prefixes[k]).is_prefix_of(low@),
        decreases p.privileged_prefixes.len() - i,
    {
        if starts_with(low.as_slice(), p.privileged_prefixes[i]) {
            assert(prefixes[i as int].is_prefix_of(low@));
            return true;
        }
        assert(!prefixes[i as int].is_prefix_of(low@));
        i = i + 1;
    }
    any_match(&p.privileged, string_of(segment).as_str())
}

/// Categorize a shell command. Returns the most accurate confirmation reason
/// and never a "safe" category: the policy stays at prompt. Two commands in sequence
/// are as grave as the graver of them.
pub fn categorize_bash(cmd: &str) -> (r: ToolCategory)
    ensures
        r == bash_category(cmd@),
        r is Privileged || r is FsDestructive || r is GitDestructive || r is ShellUnsafe,
        forall|a: Seq<char>, b: Seq<char>|
            cmd@ == #[trigger] in_sequence(a, b) ==> gravity(r) == graver(
                bash_category(a),
                bash_category(b),
            ),
{
    let p = patterns();
    let chars = chars_of(cmd);
    let mut segments = scan_segments(chars.as_slice(), 2, &p);
    if find_char(chars.as_slice(), '`') < chars.len() {
        let ghost listed = char_views(segments@);
        let collapsed = without_backticks(chars.as_slice());
        let mut more = scan_segments(collapsed.as_slice(), 2, &p);
        let ghost added = char_views(more@);
        segments.append(&mut more);
        assert(char_views(segments@) =~= listed + added);
    }
    let ghost all = considered(cmd@);
    assert(char_views(segments@) == all);
    let mut privileged = false;
    let mut fs_destructive = false;
    let mut git_destructive = false;
    let mut i: usize = 0;
    while i < segments.len()
        invariant
            i <= segments.len(),
            p@ == shell_patterns(),
            char_views(segments@) == all,
            privileged == exists|k: int| 0 <= k < i && is_privileged(#[trigger] all[k]),
            fs_destructive == exists|k: int|
                0 <= k < i && any_found(p@.fs_destructive, #[trigger] all[k]),
            git_destructive == exists|k: int|
                0 <= k < i && any_found(p@.git_destructive, #[trigger] all[k]),
        decreases segments.len() - i,
    {
        let segment = segments[i].as_slice();
        assert(segment@ == all[i as int]);
        let text = string_of(segment);
        if is_privileged_segment(segment, &p) {
            privileged = true;
        }
        if any_match(&p.fs_destructive, text.as_str()) {
            fs_destructive = true;
        }
        if any_match(&p.git_destructive, text.as_str()) {
            git_destructive = true;
        }
        i = i + 1;
    }
    let line = string_of(trimmed(chars.as_slice()).as_slice());
    let pipe_destructive = any_match(&p.pipe_destructive, line.as_str());
    proof {
        assert forall|a: Seq<char>, b: Seq<char>| cmd@ == #[trigger] in_sequence(a, b) implies gravity(
            bash_category(cmd@),
        ) == graver(bash_category(a), bash_category(b)) by {
            lemma_trim_in_sequence(a, b);
            assert(line@ == beside(trim_start(a), trim_end(seq![' '] + b)));
            lemma_category_in_sequence(a, b);
        }
    }
    category_of_findings(privileged, fs_destructive, pipe_destructive, git_destructive)
}

fn without_backticks(s: &[char]) -> (r: Vec<char>)
    ensures
        r@ == s@.filter(|c: char| c != '`'),
{
    let ghost keep = |c: char| c != '`';
    let mut out: Vec<char> = Vec::new();
    let mut i: usize = 0;
    proof {
        reveal(Seq::filter);
        assert(s@.take(0).filter(keep) =~= Seq::empty());
    }
    while i < s.len()
        invariant
            i <= s.len(),
            keep == (|c: char| c != '`'),
            out@ == s@.take(i as int).filter(keep),
        decreases s.len() - i,
    {
        proof {
            reveal(Seq::filter);
            assert(s@.take(i + 1).drop_last() =~= s@.take(i as int));
        }
        if s[i] != '`' {
            out.push(s[i]);
        }
        i = i + 1;
    }
    assert(s@.take(i as int) =~= s@);
    out
}

// ---------------------------------------------------------------------------
// What the tools may do
// ---------------------------------------------------------------------------

/// The names of the builtin tools differ from one another.
proof fn lemma_tool_names()
    ensures
        "read_file"@ != "Read"@,
        "read_file"@ != "grep"@,
        "read_file"@ != "Grep"@,
        "read_file"@ != "glob"@,
        "read_file"@ != "Glob"@,
        "read_file"@ != "list_dir"@,
        "read_file"@ != "web_fetch"@,
        "read_file"@ != "WebFetch"@,
        "read_file"@ != "web_search"@,
        "read_file"@ != "WebSearch"@,
        "read_file"@ != "write_file"@,
        "read_file"@ != "Write"@,
        "read_file"@ != "edit"@,
        "read_file"@ != "Edit"@,
        "read_file"@ != "multi_edit"@,
        "read_file"@ != "MultiEdit"@,
        "read_file"@ != "bash"@,
        "read_file"@ != "Bash"@,
        "Read"@ != "grep"@,
        "Read"@ != "Grep"@,
        "Read"@ != "glob"@,
        "Read"@ != "Glob"@,
        "Read"@ != "list_dir"@,
        "Read"@ != "web_fetch"@,
        "Read"@ != "WebFetch"@,
        "Read"@ != "web_search"@,
        "Read"@ != "WebSearch"@,
        "Read"@ != "write_file"@,
        "Read"@ != "Write"@,
        "Read"@ != "edit"@,
        "Read"@ != "Edit"@,
        "Read"@ != "multi_edit"@,
        "Read"@ != "MultiEdit"@,
        "Read"@ != "bash"@,
        "Read"@ != "Bash"@,
        "grep"@ != "Grep"@,
        "grep"@ != "glob"@,
        "grep"@ != "Glob"@,
        "grep"@ != "list_dir"@,
        "grep"@ != "web_fetch"@,
        "grep"@ != "WebFetch"@,
        "grep"@ != "web_search"@,
        "grep"@ != "WebSearch"@,
        "grep"@ != "write_file"@,
        "grep"@ != "Write"@,
        "grep"@ != "edit"@,
        "grep"@ != "Edit"@,
        "grep"@ != "multi_edit"@,
        "grep"@ != "MultiEdit"@,
        "grep"@ != "bash"@,
        "grep"@ != "Bash"@,
        "Grep"@ != "glob"@,
        "Grep"@ != "Glob"@,
        "Grep"@ != "list_dir"@,
        "Grep"@ != "web_fetch"@,
        "Grep"@ != "WebFetch"@,
        "Grep"@ != "web_search"@,
        "Grep"@ != "WebSearch"@,
        "Grep"@ != "write_file"@,
        "Grep"@ != "Write"@,
        "Grep"@ != "edit"@,
        "Grep"@ != "Edit"@,
        "Grep"@ != "multi_edit"@,
        "Grep"@ != "MultiEdit"@,
        "Grep"@ != "bash"@,
        "Grep"@ != "Bash"@,
        "glob"@ != "Glob"@,
        "glob"@ != "list_dir"@,
        "glob"@ != "web_fetch"@,
        "glob"@ != "WebFetch"@,
        "glob"@ != "web_search"@,
        "glob"@ != "WebSearch"@,
        "glob"@ != "write_file"@,
        "glob"@ != "Write"@,
        "glob"@ != "edit"@,
        "glob"@ != "Edit"@,
        "glob"@ != "multi_edit"@,
        "glob"@ != "MultiEdit"@,
        "glob"@ != "bash"@,
        "glob"@ != "Bash"@,
        "Glob"@ != "list_dir"@,
        "Glob"@ != "web_fetch"@,
        "Glob"@ != "WebFetch"@,
        "Glob"@ != "web_search"@,
        "Glob"@ != "WebSearch"@,
        "Glob"@ != "write_file"@,
        "Glob"@ != "Write"@,
        "Glob"@ != "edit"@,
        "Glob"@ != "Edit"@,
        "Glob"@ != "multi_edit"@,
        "Glob"@ != "MultiEdit"@,
        "Glob"@ != "bash"@,
        "Glob"@ != "Bash"@,
        "list_dir"@ != "web_fetch"@,
        "list_dir"@ != "WebFetch"@,
        "list_dir"@ != "web_search"@,
        "list_dir"@ != "WebSearch"@,
        "list_dir"@ != "write_file"@,
        "list_dir"@ != "Write"@,
        "list_dir"@ != "edit"@,
        "list_dir"@ != "Edit"@,
        "list_dir"@ != "multi_edit"@,
        "list_dir"@ != "MultiEdit"@,
        "list_dir"@ != "bash"@,
        "list_dir"@ != "Bash"@,
        "web_fetch"@ != "WebFetch"@,
        "web_fetch"@ != "web_search"@,
        "web_fetch"@ != "WebSearch"@,
        "web_fetch"@ != "write_file"@,
        "web_fetch"@ != "Write"@,
        "web_fetch"@ != "edit"@,
        "web_fetch"@ != "Edit"@,
        "web_fetch"@ != "multi_edit"@,
        "web_fetch"@ != "MultiEdit"@,
        "web_fetch"@ != "bash"@,
        "web_fetch"@ != "Bash"@,
        "WebFetch"@ != "web_search"@,
        "WebFetch"@ != "WebSearch"@,
        "WebFetch"@ != "write_file"@,
        "WebFetch"@ != "Write"@,
        "WebFetch"@ != "edit"@,
        "WebFetch"@ != "Edit"@,
        "WebFetch"@ != "multi_edit"@,
        "WebFetch"@ != "MultiEdit"@,
        "WebFetch"@ != "bash"@,
        "WebFetch"@ != "Bash"@,
        "web_search"@ != "WebSearch"@,
        "web_search"@ != "write_file"@,
        "web_search"@ != "Write"@,
        "web_search"@ != "edit"@,
        "web_search"@ != "Edit"@,
        "web_search"@ != "multi_edit"@,
        "web_search"@ != "MultiEdit"@,
        "web_search"@ != "bash"@,
        "web_search"@ != "Bash"@,
        "WebSearch"@ != "write_file"@,
        "WebSearch"@ != "Write"@,
        "WebSearch"@ != "edit"@,
        "WebSearch"@ != "Edit"@,
        "WebSearch"@ != "multi_edit"@,
        "WebSearch"@ != "MultiEdit"@,
        "WebSearch"@ != "bash"@,
        "WebSearch"@ != "Bash"@,
        "write_file"@ != "Write"@,
        "write_file"@ != "edit"@,
        "write_file"@ != "Edit"@,
        "write_file"@ != "multi_edit"@,
        "write_file"@ != "MultiEdit"@,
        "write_file"@ != "bash"@,
        "write_file"@ != "Bash"@,
        "Write"@ != "edit"@,
        "Write"@ != "Edit"@,
        "Write"@ != "multi_edit"@,
        "Write"@ != "MultiEdit"@,
        "Write"@ != "bash"@,
        "Write"@ != "Bash"@,
        "edit"@ != "Edit"@,
        "edit"@ != "multi_edit"@,
        "edit"@ != "MultiEdit"@,
        "edit"@ != "bash"@,
        "edit"@ != "Bash"@,
        "Edit"@ != "multi_edit"@,
        "Edit"@ != "MultiEdit"@,
        "Edit"@ != "bash"@,
        "Edit"@ != "Bash"@,
        "multi_edit"@ != "MultiEdit"@,
        "multi_edit"@ != "bash"@,
        "multi_edit"@ != "Bash"@,
        "MultiEdit"@ != "bash"@,
        "MultiEdit"@ != "Bash"@,
        "bash"@ != "Bash"@,
{
    reveal_strlit("read_file");
    reveal_strlit("Read");
    reveal_strlit("grep");
    reveal_strlit("Grep");
    reveal_strlit("glob");
    reveal_strlit("Glob");
    reveal_strlit("list_dir");
    reveal_strlit("web_fetch");
    reveal_strlit("WebFetch");
    reveal_strlit("web_search");
    reveal_strlit("WebSearch");
    reveal_strlit("write_file");
    reveal_strlit("Write");
    reveal_strlit("edit");
    reveal_strlit("Edit");
    reveal_strlit("multi_edit");
    reveal_strlit("MultiEdit");
    reveal_strlit("bash");
    reveal_strlit("Bash");
    assert("read_file"@.len() == 9);
    assert("Read"@.len() == 4);
    assert("grep"@.len() == 4);
    assert("Grep"@.len() == 4);
    assert("glob"@.len() == 4);
    assert("Glob"@.len() == 4);
    assert("list_dir"@.len() == 8);
    assert("web_fetch"@.len() == 9);
    assert("WebFetch"@.len() == 8);
    assert("web_search"@.len() == 10);
    assert("WebSearch"@.len() == 9);
    assert("write_file"@.len() == 10);
    assert("Write"@.len() == 5);
    assert("edit"@.len() == 4);
    assert("Edit"@.len() == 4);
    assert("multi_edit"@.len() == 10);
    assert("MultiEdit"@.len() == 9);
    assert("bash"@.len() == 4);
    assert("Bash"@.len() == 4);
    assert("read_file"@[0] != "web_fetch"@[0]);
    assert("read_file"@[0] != "WebSearch"@[0]);
    assert("read_file"@[0] != "MultiEdit"@[0]);
    assert("Read"@[0] != "grep"@[0]);
    assert("Read"@[0] != "Grep"@[0]);
    assert("Read"@[0] != "glob"@[0]);
    assert("Read"@[0] != "Glob"@[0]);
    assert("Read"@[0] != "edit"@[0]);
    assert("Read"@[0] != "Edit"@[0]);
    assert("Read"@[0] != "bash"@[0]);
    assert("Read"@[0] != "Bash"@[0]);
    assert("grep"@[0] != "Grep"@[0]);
    assert("grep"@[1] != "glob"@[1]);
    assert("grep"@[0] != "Glob"@[0]);
    assert("grep"@[0] != "edit"@[0]);
    assert("grep"@[0] != "Edit"@[0]);
    assert("grep"@[0] != "bash"@[0]);
    assert("grep"@[0] != "Bash"@[0]);
    assert("Grep"@[0] != "glob"@[0]);
    assert("Grep"@[1] != "Glob"@[1]);
    assert("Grep"@[0] != "edit"@[0]);
    assert("Grep"@[0] != "Edit"@[0]);
    assert("Grep"@[0] != "bash"@[0]);
    assert("Grep"@[0] != "Bash"@[0]);
    assert("glob"@[0] != "Glob"@[0]);
    assert("glob"@[0] != "edit"@[0]);
    assert("glob"@[0] != "Edit"@[0]);
    assert("glob"@[0] != "bash"@[0]);
    assert("glob"@[0] != "Bash"@[0]);
    assert("Glob"@[0] != "edit"@[0]);
    assert("Glob"@[0] != "Edit"@[0]);
    assert("Glob"@[0] != "bash"@[0]);
    assert("Glob"@[0] != "Bash"@[0]);
    assert("list_dir"@[0] != "WebFetch"@[0]);
    assert("web_fetch"@[0] != "WebSearch"@[0]);
    assert("web_fetch"@[0] != "MultiEdit"@[0]);
    assert("web_search"@[1] != "write_file"@[1]);
    assert("web_search"@[0] != "multi_edit"@[0]);
    assert("WebSearch"@[0] != "MultiEdit"@[0]);
    assert("write_file"@[0] != "multi_edit"@[0]);
    assert("edit"@[0] != "Edit"@[0]);
    assert("edit"@[0] != "bash"@[0]);
    assert("edit"@[0] != "Bash"@[0]);
    assert("Edit"@[0] != "bash"@[0]);
    assert("Edit"@[0] != "Bash"@[0]);
    assert("bash"@[0] != "Bash"@[0]);
}

/// The tools that read are allowed in every mode; those that write files are blocked
/// under Explore, prompt under Ask and are allowed under Execute; and every other tool,
/// the shell and unknown ones too, is blocked under Explore and prompts under Ask and
/// under Execute. Whatever the arguments, a shell command is all that refines this.
pub proof fn law_tools_keep_to_their_permissions(
    name: Seq<char>,
    command: Option<Seq<char>>,
    mode: PermissionMode,
)
    ensures
        ({
            let category = tool_use_category(name, command, |cmd: Seq<char>| bash_category(cmd));
            let reads = name == "read_file"@ || name == "Read"@ || name == "grep"@ || name == "Grep"@ || name == "glob"@ || name == "Glob"@ || name == "list_dir"@ || name == "web_fetch"@ || name == "WebFetch"@ || name == "web_search"@ || name == "WebSearch"@;
            let writes = name == "write_file"@ || name == "Write"@ || name == "edit"@ || name == "Edit"@ || name == "multi_edit"@ || name == "MultiEdit"@;
            match mode {
                PermissionMode::Bypass => policy(mode, category) is Allow,
                PermissionMode::Explore => if reads {
                    policy(mode, category) is Allow
                } else {
                    policy(mode, category) is Block
                },
                PermissionMode::Ask => if reads {
                    policy(mode, category) is Allow
                } else {
                    policy(mode, category) is Prompt
                },
                PermissionMode::Execute => if reads || writes {
                    policy(mode, category) is Allow
                } else {
                    policy(mode, category) is Prompt
                },
            }
        }),
{
    lemma_tool_names();
}

/// As [`law_tools_keep_to_their_permissions`], of what the functions return: the policy on
/// the category that a call is given, and the category itself by the tool's name.
pub proof fn law_classified_tools(
    name: &str,
    args: &Json,
    builtin: Option<ToolCategory>,
    category: ToolCategory,
)
    requires
        call_ensures(builtin_tool_category, (name,), builtin),
        call_ensures(classify_tool_use, (name, args), category),
    ensures
        (name@ == "read_file"@ || name@ == "Read"@ || name@ == "grep"@ || name@ == "Grep"@ || name@ == "glob"@ || name@ == "Glob"@ || name@ == "list_dir"@) == (builtin == Some(ToolCategory::Read)),
        (name@ == "web_fetch"@ || name@ == "WebFetch"@ || name@ == "web_search"@ || name@ == "WebSearch"@) == (builtin == Some(ToolCategory::WebRead)),
        (name@ == "write_file"@ || name@ == "Write"@ || name@ == "edit"@ || name@ == "Edit"@ || name@ == "multi_edit"@ || name@ == "MultiEdit"@) == (builtin == Some(ToolCategory::FileWrite)),
        (name@ == "bash"@ || name@ == "Bash"@) == (builtin == Some(ToolCategory::ShellUnsafe)),
        builtin matches Some(b) ==> b is Read || b is WebRead || b is FileWrite || b is ShellUnsafe,
        builtin is None ==> category is CustomTool,
        builtin is Some && !(builtin->0 is ShellUnsafe) ==> category == builtin->0,
        builtin == Some(ToolCategory::ShellUnsafe) ==> category == (match args@.get("command"@) {
            Some(JsonView::Text(cmd)) => bash_category(cmd),
            _ => ToolCategory::ShellUnsafe,
        }),
{
    lemma_tool_names();
}

/// The policy, mode by mode, of what the function returns: only reading is allowed under
/// Explore and Ask, writing files too under Execute, everything under Bypass; what is
/// not allowed is blocked under Explore and prompts elsewhere.
pub proof fn law_policy(mode: PermissionMode, category: ToolCategory, decision: PolicyDecision)
    requires
        call_ensures(policy_decision, (mode, category), decision),
    ensures
        decision is Allow <==> mode is Bypass || category is Read || category is WebRead || (
        mode is Execute && category is FileWrite),
        decision is Block ==> mode is Explore,
        decision is Prompt ==> mode is Ask || mode is Execute,
{
}

// ---------------------------------------------------------------------------
// What is looked at in a command
// ---------------------------------------------------------------------------

proof fn lemma_pieces_around(a: Seq<char>, c: char, b: Seq<char>)
    requires
        is_separator(c),
    ensures
        pieces(a.push(c) + b) == pieces(a) + pieces(b),
    decreases b.len(),
{
    let all = a.push(c) + b;
    lemma_pieces_nonempty(b);
    if b.len() == 0 {
        assert(all.drop_last() =~= a);
        assert(all.last() == c);
        assert(pieces(all) =~= pieces(a) + pieces(b));
    } else {
        let init = b.drop_last();
        lemma_pieces_around(a, c, init);
        lemma_pieces_nonempty(init);
        assert(all.drop_last() =~= a.push(c) + init);
        assert(all.last() == b.last());
        assert(pieces(all) =~= pieces(a) + pieces(b));
    }
}

/// Each of the characters `|`, `;`, `&`, line feed, `(`, `)`, `{`, `}` and the backtick
/// ends a statement: the segments of what stands on both sides of it are those of the
/// one side and those of the other.
pub proof fn law_statements_are_split(a: Seq<char>, c: char, b: Seq<char>, depth: nat)
    requires
        c == '|' || c == ';' || c == '&' || c == '\n' || c == '(' || c == ')' || c == '{' || c == '}' || c == '`',
    ensures
        all_segments(a.push(c) + b, depth) == all_segments(a, depth) + all_segments(b, depth),
{
    lemma_pieces_around(a, c, b);
    lemma_trimmed_texts_add(pieces(a), pieces(b));
    lemma_segments_add(raw_segments(a), raw_segments(b), depth);
}

proof fn lemma_pieces_bare(s: Seq<char>, i: int, k: int)
    requires
        0 <= i < pieces(s).len(),
        0 <= k < pieces(s)[i].len(),
    ensures
        !is_separator(pieces(s)[i][k]),
    decreases s.len(),
{
    if s.len() > 0 {
        let init = s.drop_last();
        lemma_pieces_nonempty(init);
        if i < pieces(init).len() && k < pieces(init)[i].len() {
            lemma_pieces_bare(init, i, k);
        }
    }
}

proof fn lemma_trim_within(s: Seq<char>, k: int) -> (i: int)
    requires
        0 <= k < trim(s).len(),
    ensures
        0 <= i < s.len(),
        s[i] == trim(s)[k],
{
    lemma_trim_start_suffix(s);
    lemma_trim_end_prefix(trim_start(s));
    k + s.len() - trim_start(s).len()
}

proof fn lemma_trimmed_origin(v: Seq<Seq<char>>, i: int) -> (j: int)
    requires
        0 <= i < trimmed_texts(v).len(),
    ensures
        0 <= j < v.len(),
        trimmed_texts(v)[i] == trim(v[j]),
    decreases v.len(),
{
    let rest = trimmed_texts(v.drop_last());
    if i < rest.len() {
        lemma_trimmed_origin(v.drop_last(), i)
    } else {
        v.len() - 1
    }
}

/// No segment that a command is cut into holds a character that ends a statement.
pub proof fn law_segments_are_single_statements(cmd: Seq<char>, i: int, k: int)
    requires
        0 <= i < raw_segments(cmd).len(),
        0 <= k < raw_segments(cmd)[i].len(),
    ensures
        ({
            let c = raw_segments(cmd)[i][k];
            !(c == '|' || c == ';' || c == '&' || c == '\n' || c == '(' || c == ')' || c == '{' || c == '}' || c == '`')
        }),
{
    let j = lemma_trimmed_origin(pieces(cmd), i);
    let at = lemma_trim_within(pieces(cmd)[j], k);
    lemma_pieces_bare(cmd, j, at);
}

proof fn lemma_considered_around(a: Seq<char>, c: char, b: Seq<char>, s: Seq<char>)
    requires
        is_separator(c),
        c != '`',
    ensures
        considered(a.push(c) + b).contains(s) <==> considered(a).contains(s) || considered(
            b,
        ).contains(s),
{
    let keep = |x: char| x != '`';
    let all = a.push(c) + b;
    law_statements_are_split(a, c, b, 2);
    assert(a.contains('`') ==> all.contains('`')) by {
        if a.contains('`') {
            let i = choose|i: int| 0 <= i < a.len() && a[i] == '`';
            assert(all[i] == '`');
        }
    }
    assert(b.contains('`') ==> all.contains('`')) by {
        if b.contains('`') {
            let i = choose|i: int| 0 <= i < b.len() && b[i] == '`';
            assert(all[a.len() + 1 + i] == '`');
        }
    }
    assert(all.contains('`') ==> a.contains('`') || b.contains('`') || c == '`') by {
        if all.contains('`') {
            let i = choose|i: int| 0 <= i < all.len() && all[i] == '`';
            if i < a.len() {
                assert(a[i] == '`');
            } else if i > a.len() {
                assert(b[i - a.len() - 1] == '`');
            }
        }
    }
    if !a.contains('`') {
        lemma_nothing_filtered(a, keep);
    }
    if !b.contains('`') {
        lemma_nothing_filtered(b, keep);
    }
    lemma_contains_add(all_segments(a, 2), all_segments(b, 2), s);
    lemma_contains_add(all_segments(a, 2), all_segments(a.filter(keep), 2), s);
    lemma_contains_add(all_segments(b, 2), all_segments(b.filter(keep), 2), s);
    lemma_contains_add(all_segments(all, 2), all_segments(all.filter(keep), 2), s);
    assert(all.filter(keep) == a.filter(keep).push(c) + b.filter(keep)) by {
        Seq::filter_distributes_over_add(a.push(c), b, keep);
        reveal(Seq::filter);
        assert(a.push(c).drop_last() =~= a);
    }
    law_statements_are_split(a.filter(keep), c, b.filter(keep), 2);
    lemma_contains_add(all_segments(a.filter(keep), 2), all_segments(b.filter(keep), 2), s);
}

/// Two statements, on lines of their own or apart by another mark that ends one, are as
/// grave as the graver of them, as long as no pipeline reaches over the mark: where the
/// pipeline patterns match the whole exactly if they match one of the two.
pub proof fn law_statements_are_judged_apart(a: Seq<char>, c: char, b: Seq<char>)
    requires
        c == '|' || c == ';' || c == '&' || c == '\n' || c == '(' || c == ')' || c == '{' || c == '}',
        ({
            let x = trim(a.push(c) + b);
            (regex_found(r"\|\s*xargs\b[^\n;&|]*\b(rm|shred|truncate|dd)\b"@, x) || regex_found(r"\|\s*(sh|bash|zsh)\b"@, x)) == ((regex_found(r"\|\s*xargs\b[^\n;&|]*\b(rm|shred|truncate|dd)\b"@, trim(a)) || regex_found(r"\|\s*(sh|bash|zsh)\b"@, trim(a))) || (regex_found(r"\|\s*xargs\b[^\n;&|]*\b(rm|shred|truncate|dd)\b"@, trim(b)) || regex_found(r"\|\s*(sh|bash|zsh)\b"@, trim(b))))
        }),
    ensures
        gravity(bash_category(a.push(c) + b)) == graver(bash_category(a), bash_category(b)),
{
    let all = a.push(c) + b;
    let p = shell_patterns();
    let pipes = p.pipe_destructive;
    lemma_pipes(trim(all));
    lemma_pipes(trim(a));
    lemma_pipes(trim(b));
    lemma_some_around(a, c, b, |s: Seq<char>| is_privileged(s));
    lemma_some_around(a, c, b, |s: Seq<char>| any_found(shell_patterns().fs_destructive, s));
    lemma_some_around(a, c, b, |s: Seq<char>| any_found(shell_patterns().git_destructive, s));
    lemma_category(a);
    lemma_category(b);
    lemma_category(all);
}

proof fn lemma_pipes(x: Seq<char>)
    ensures
        any_found(shell_patterns().pipe_destructive, x) == (regex_found(r"\|\s*xargs\b[^\n;&|]*\b(rm|shred|truncate|dd)\b"@, x) || regex_found(r"\|\s*(sh|bash|zsh)\b"@, x)),
{
    let t = shell_patterns().pipe_destructive;
    assert(t.len() == 2 && t[0] == xargs_pattern() && t[1] == shell_pattern());
}

proof fn lemma_some_around(a: Seq<char>, c: char, b: Seq<char>, f: spec_fn(Seq<char>) -> bool)
    requires
        is_separator(c),
        c != '`',
    ensures
        some_considered(a.push(c) + b, f) == (some_considered(a, f) || some_considered(b, f)),
{
    let all = considered(a.push(c) + b);
    let of_a = considered(a);
    let of_b = considered(b);
    if some_considered(a.push(c) + b, f) {
        let i = choose|i: int| 0 <= i < all.len() && f(#[trigger] all[i]);
        lemma_considered_around(a, c, b, all[i]);
        assert(all.contains(all[i]));
        if of_a.contains(all[i]) {
            let k = choose|k: int| 0 <= k < of_a.len() && of_a[k] == all[i];
            assert(f(of_a[k]));
        } else {
            let k = choose|k: int| 0 <= k < of_b.len() && of_b[k] == all[i];
            assert(f(of_b[k]));
        }
    }
    if some_considered(a, f) {
        let i = choose|i: int| 0 <= i < of_a.len() && f(#[trigger] of_a[i]);
        lemma_considered_around(a, c, b, of_a[i]);
        assert(of_a.contains(of_a[i]));
        let k = choose|k: int| 0 <= k < all.len() && all[k] == of_a[i];
        assert(f(all[k]));
    }
    if some_considered(b, f) {
        let i = choose|i: int| 0 <= i < of_b.len() && f(#[trigger] of_b[i]);
        lemma_considered_around(a, c, b, of_b[i]);
        assert(of_b.contains(of_b[i]));
        let k = choose|k: int| 0 <= k < all.len() && all[k] == of_b[i];
        assert(f(all[k]));
    }
}

/// The segment starts with a command that needs raised privileges.
pub open spec fn asks_for_privileges(s: Seq<char>) -> bool {
    ||| "sudo "@.is_prefix_of(lower(s)) || "su "@.is_prefix_of(lower(s)) || "chmod "@.is_prefix_of(lower(s)) || "chown "@.is_prefix_of(lower(s)) || "chgrp "@.is_prefix_of(lower(s)) || "mount "@.is_prefix_of(lower(s)) || "umount "@.is_prefix_of(lower(s)) || "kill "@.is_prefix_of(lower(s)) || "killall "@.is_prefix_of(lower(s)) || "systemctl "@.is_prefix_of(lower(s)) || "launchctl "@.is_prefix_of(lower(s)) || "shutdown"@.is_prefix_of(lower(s)) || "reboot"@.is_prefix_of(lower(s))
    ||| regex_found(r"(?i)^(kill|stop-process|spps|taskkill)\b"@, s) || regex_found(r"(?i)(^|\s)-verb\s+runas\b"@, s) || regex_found(r"(?i)^((start|stop|restart|set|new|remove|suspend|resume)-service|sasv|spsv)\b"@, s) || regex_found(r"(?i)^sc\s+(stop|start|pause|continue|delete|config|create|failure|sdset)\b"@, s) || regex_found(r"(?i)^net\s+(stop|start|pause|continue)\b"@, s) || regex_found(r"(?i)^(stop-computer|restart-computer)\b"@, s) || regex_found(r"(?i)^(icacls|takeown|set-acl|runas)\b"@, s)
}

/// The segment destroys files.
pub open spec fn destroys_files(s: Seq<char>) -> bool {
    regex_found(r"^dd\s+"@, s)
        || regex_found(r"^truncate\b"@, s)
        || regex_found(r"^shred\b"@, s)
        || regex_found(r"^mkfs\b"@, s)
        || regex_found(r"^git\s+restore\s+(\.\s*$|--\s+\S+)"@, s)
        || regex_found(r"^git\s+checkout\s+--\s+\S+"@, s)
        || regex_found(r"^find\s+.*\s-delete\b"@, s)
        || regex_found(r"^find\s+.*\s-exec\s+.*\b(rm|shred|truncate|dd)\b"@, s)
        || regex_found(r"^xargs\s+.*\b(rm|shred|truncate|dd)\b"@, s)
        || regex_found(r"(?i)^remove-item\b"@, s)
        || regex_found(r"(?i)^(rm|rmdir|ri|del|erase|rd)\b"@, s)
        || regex_found(r"(?i)^(clear-content|clc)\b"@, s)
}

/// The segment destroys history or working-tree state.
pub open spec fn destroys_history(s: Seq<char>) -> bool {
    regex_found(r"^git\s+reset\s+--hard\b"@, s)
        || regex_found(r"^git\s+push\s+(--force|-f)\b"@, s)
        || regex_found(r"^git\s+branch\s+-D\b"@, s)
        || regex_found(r"^git\s+clean\s+-fd?\b"@, s)
        || regex_found(r"^git\s+checkout\s+\.\s*$"@, s)
        || regex_found(r"^git\s+rebase\s+-i\b"@, s)
}

proof fn lemma_patterns(s: Seq<char>)
    ensures
        is_privileged(s) == asks_for_privileges(s),
        any_found(shell_patterns().fs_destructive, s) == destroys_files(s),
        any_found(shell_patterns().git_destructive, s) == destroys_history(s),
{
    assert(is_privileged(s) == asks_for_privileges(s)) by {
        let t = shell_patterns().privileged_prefixes;
        assert(t.len() == 13);
        assert(t[0] == "sudo "@);
        assert(t[1] == "su "@);
        assert(t[2] == "chmod "@);
        assert(t[3] == "chown "@);
        assert(t[4] == "chgrp "@);
        assert(t[5] == "mount "@);
        assert(t[6] == "umount "@);
        assert(t[7] == "kill "@);
        assert(t[8] == "killall "@);
        assert(t[9] == "systemctl "@);
        assert(t[10] == "launchctl "@);
        assert(t[11] == "shutdown"@);
        assert(t[12] == "reboot"@);
        let prefixes = t;
        let t = shell_patterns().privileged;
        assert(t.len() == 7);
        assert(t[0] == r"(?i)^(kill|stop-process|spps|taskkill)\b"@);
        assert(t[1] == r"(?i)(^|\s)-verb\s+runas\b"@);
        assert(t[2] == r"(?i)^((start|stop|restart|set|new|remove|suspend|resume)-service|sasv|spsv)\b"@);
        assert(t[3] == r"(?i)^sc\s+(stop|start|pause|continue|delete|config|create|failure|sdset)\b"@);
        assert(t[4] == r"(?i)^net\s+(stop|start|pause|continue)\b"@);
        assert(t[5] == r"(?i)^(stop-computer|restart-computer)\b"@);
        assert(t[6] == r"(?i)^(icacls|takeown|set-acl|runas)\b"@);
        assert(asks_for_privileges(s) ==> is_privileged(s)) by {
            if "sudo "@.is_prefix_of(lower(s)) || "su "@.is_prefix_of(lower(s)) || "chmod "@.is_prefix_of(lower(s)) || "chown "@.is_prefix_of(lower(s)) || "chgrp "@.is_prefix_of(lower(s)) || "mount "@.is_prefix_of(lower(s)) || "umount "@.is_prefix_of(lower(s)) || "kill "@.is_prefix_of(lower(s)) || "killall "@.is_prefix_of(lower(s)) || "systemctl "@.is_prefix_of(lower(s)) || "launchctl "@.is_prefix_of(lower(s)) || "shutdown"@.is_prefix_of(lower(s)) || "reboot"@.is_prefix_of(lower(s)) {
                assert(exists|i: int| 0 <= i < prefixes.len() && (#[trigger] prefixes[i]).is_prefix_of(lower(s)));
            }
        }
    }
    assert(any_found(shell_patterns().fs_destructive, s) == destroys_files(s)) by {
        let t = shell_patterns().fs_destructive;
        assert(t.len() == 12);
        assert(t[0] == r"^dd\s+"@);
        assert(t[1] == r"^truncate\b"@);
        assert(t[2] == r"^shred\b"@);
        assert(t[3] == r"^mkfs\b"@);
        assert(t[4] == r"^git\s+restore\s+(\.\s*$|--\s+\S+)"@);
        assert(t[5] == r"^git\s+checkout\s+--\s+\S+"@);
        assert(t[6] == r"^find\s+.*\s-delete\b"@);
        assert(t[7] == r"^find\s+.*\s-exec\s+.*\b(rm|shred|truncate|dd)\b"@);
        assert(t[8] == r"^xargs\s+.*\b(rm|shred|truncate|dd)\b"@);
        assert(t[9] == r"(?i)^remove-item\b"@);
        assert(t[10] == r"(?i)^(rm|rmdir|ri|del|erase|rd)\b"@);
        assert(t[11] == r"(?i)^(clear-content|clc)\b"@);
    }
    assert(any_found(shell_patterns().git_destructive, s) == destroys_history(s)) by {
        let t = shell_patterns().git_destructive;
        assert(t.len() == 6);
        assert(t[0] == r"^git\s+reset\s+--hard\b"@);
        assert(t[1] == r"^git\s+push\s+(--force|-f)\b"@);
        assert(t[2] == r"^git\s+branch\s+-D\b"@);
        assert(t[3] == r"^git\s+clean\s+-fd?\b"@);
        assert(t[4] == r"^git\s+checkout\s+\.\s*$"@);
        assert(t[5] == r"^git\s+rebase\s+-i\b"@);
    }
}

/// The gravest finding about the segments of a command is its category: it is
/// privileged exactly if some segment asks for privileges; else it destroys files exactly
/// if some segment or pipeline does; else history, exactly if some segment does; and
/// no other category is given.
pub proof fn law_the_gravest_segment_decides(cmd: &str, r: ToolCategory)
    requires
        call_ensures(categorize_bash, (cmd,), r),
    ensures
        ({
            let all = considered(cmd@);
            let x = trim(cmd@);
            let privileged = exists|i: int|
                0 <= i < all.len() && asks_for_privileges(#[trigger] all[i]);
            let files = (exists|i: int| 0 <= i < all.len() && destroys_files(#[trigger] all[i])) || (
            regex_found(r"\|\s*xargs\b[^\n;&|]*\b(rm|shred|truncate|dd)\b"@, x) || regex_found(r"\|\s*(sh|bash|zsh)\b"@, x));
            let history = exists|i: int| 0 <= i < all.len() && destroys_history(#[trigger] all[i]);
            &&& r is Privileged <==> privileged
            &&& r is FsDestructive <==> files && !privileged
            &&& r is GitDestructive <==> history && !files && !privileged
            &&& r is ShellUnsafe <==> !history && !files && !privileged
        }),
{
    let all = considered(cmd@);
    lemma_pipes(trim(cmd@));
    assert forall|i: int| 0 <= i < all.len() implies is_privileged(#[trigger] all[i])
        == asks_for_privileges(all[i]) && any_found(shell_patterns().fs_destructive, all[i])
        == destroys_files(all[i]) && any_found(shell_patterns().git_destructive, all[i])
        == destroys_history(all[i]) by {
        lemma_patterns(all[i]);
    }
}

/// Backticks hide nothing: a command that holds some is looked at as it stands and with
/// them taken out.
pub proof fn law_backticks_hide_nothing(cmd: Seq<char>, s: Seq<char>)
    ensures
        all_segments(cmd, 2).contains(s) ==> considered(cmd).contains(s),
        cmd.contains('`') && all_segments(cmd.filter(|c: char| c != '`'), 2).contains(s)
            ==> considered(cmd).contains(s),
        considered(cmd).contains(s) ==> all_segments(cmd, 2).contains(s) || all_segments(
            cmd.filter(|c: char| c != '`'),
            2,
        ).contains(s),
{
    lemma_contains_add(
        all_segments(cmd, 2),
        all_segments(cmd.filter(|c: char| c != '`'), 2),
        s,
    );
}

/// A name of lower-case letters.
pub open spec fn is_plain(w: Seq<char>) -> bool {
    w.len() > 0 && forall|i: int| 0 <= i < w.len() ==> 'a' <= #[trigger] w[i] <= 'z'
}

proof fn lemma_plain(w: Seq<char>)
    requires
        is_plain(w),
    ensures
        unquoted(w) == w,
        lower(w) == w,
        bare_name(w) == w,
        forall|i: int|
            0 <= i < w.len() ==> !is_space(#[trigger] w[i]) && !is_separator(w[i]) && w[i] != '\''
                && w[i] != '"' && w[i] != '/' && w[i] != '\\' && w[i] != '.',
{
    lemma_nothing_filtered(w, |c: char| c != '\'' && c != '"' && c != '^');
    assert(lower(w) =~= w);
    lemma_after_last(w, |c: char| c == '/' || c == '\\', 0);
    assert(w.skip(0) =~= w);
    assert(!has_suffix(w, ".exe"@)) by {
        reveal_strlit(".exe");
        if has_suffix(w, ".exe"@) {
            assert(w.skip(w.len() - 4)[0] == w[w.len() - 4]);
            assert(".exe"@[0] == '.');
        }
    }
}

proof fn lemma_head_of(w: Seq<char>, rest: Seq<char>)
    requires
        is_plain(w),
        rest.len() > 0,
        !is_space(rest[0]),
    ensures
        head_and_tail(w + " "@ + rest) == Some((w, rest)),
{
    reveal_strlit(" ");
    lemma_plain(w);
    let t = w + " "@ + rest;
    assert(t[0] == w[0]);
    assert(trim_start(t) == t);
    lemma_first_where(t, |c: char| is_space(c), w.len() as int);
    assert(t.take(w.len() as int) =~= w);
    let tail = t.skip(w.len() as int);
    assert(tail[0] == ' ');
    assert(is_space(tail[0]));
    assert(tail.skip(1) =~= rest);
    assert(trim_start(rest) == rest);
    assert(trim_start(tail) == rest);
    assert(t[0] != '\'' && t[0] != '"');
}

/// The commands `nohup`, `nice`, `time`, `timeout`, `env`, `command`, `exec` and `stdbuf`
/// are looked through to what they run.
pub proof fn law_wrappers_are_looked_through(w: Seq<char>, rest: Seq<char>, rounds: nat)
    requires
        w == "nohup"@ || w == "nice"@ || w == "time"@ || w == "timeout"@ || w == "env"@ || w == "command"@ || w == "exec"@ || w == "stdbuf"@,
        rest.len() > 0,
        !is_space(rest[0]),
    ensures
        normalized(w + " "@ + rest, rounds + 1) == normalized(without_options(rest), rounds),
{
    reveal_strlit("nohup");
    reveal_strlit("nice");
    reveal_strlit("time");
    reveal_strlit("timeout");
    reveal_strlit("env");
    reveal_strlit("command");
    reveal_strlit("exec");
    reveal_strlit("stdbuf");
    assert(is_plain(w));
    lemma_plain(w);
    lemma_head_of(w, rest);
}

/// A command that is no wrapper is looked at as it is written.
pub proof fn law_plain_commands_are_looked_at(w: Seq<char>, args: Seq<char>)
    requires
        is_plain(w),
        !(w == "nohup"@ || w == "nice"@ || w == "time"@ || w == "timeout"@ || w == "env"@ || w == "command"@ || w == "exec"@ || w == "stdbuf"@),
        args.len() > 0,
        !is_space(args[0]) && !is_space(args.last()),
        forall|i: int| 0 <= i < args.len() ==> !is_separator(#[trigger] args[i]),
    ensures
        considered(w + " "@ + args).contains(w + " "@ + args),
{
    reveal_strlit(" ");
    lemma_plain(w);
    lemma_head_of(w, args);
    let cmd = w + " "@ + args;
    assert forall|i: int| 0 <= i < cmd.len() implies !is_separator(#[trigger] cmd[i]) by {
        if i > w.len() {
            assert(cmd[i] == args[i - w.len() - 1]);
        }
    }
    lemma_one_piece(cmd);
    assert(trim_start(cmd) == cmd);
    assert(cmd.last() == args.last());
    assert(trim(cmd) == cmd);
    let one = pieces(cmd);
    assert(one.drop_last() =~= Seq::empty());
    assert(trimmed_texts(one.drop_last()) =~= Seq::empty());
    assert(raw_segments(cmd) =~= seq![cmd]);
    assert(w.push(' ') + args =~= cmd);
    assert(normalized(cmd, MAX_WRAPPERS as nat) == cmd);
    let raw = raw_segments(cmd);
    assert(raw.drop_last() =~= Seq::empty());
    assert(segments_of(raw.drop_last(), 2) =~= Seq::empty());
    assert(all_segments(cmd, 2)[0] == cmd);
    assert(all_segments(cmd, 2).contains(cmd));
    law_backticks_hide_nothing(cmd, cmd);
}

proof fn lemma_one_piece(s: Seq<char>)
    requires
        forall|i: int| 0 <= i < s.len() ==> !is_separator(#[trigger] s[i]),
    ensures
        pieces(s) == seq![s],
    decreases s.len(),
{
    if s.len() == 0 {
        assert(s =~= Seq::empty());
    } else {
        let init = s.drop_last();
        assert forall|i: int| 0 <= i < init.len() implies !is_separator(#[trigger] init[i]) by {
            assert(!is_separator(s[i]));
        }
        lemma_one_piece(init);
        assert(!is_separator(s[s.len() - 1]));
        assert(init.push(s.last()) =~= s);
        assert(pieces(s) =~= seq![s]);
    }
}

/// However a command is spelled, its name is found: behind a path with either slash,
/// behind an escape, in quotes, and before `.exe`.
pub proof fn law_spellings_name_the_same_command(w: Seq<char>, dir: Seq<char>)
    requires
        is_plain(w),
    ensures
        bare_name(w) == w,
        bare_name(dir.push('/') + w) == w,
        bare_name(dir.push('\\') + w) == w,
        bare_name(seq!['\\'] + w) == w,
        bare_name(seq!['"'] + w + seq!['"']) == w,
        bare_name(seq!['\''] + w + seq!['\'']) == w,
        bare_name(w + ".exe"@) == w,
{
    lemma_plain(w);
    lemma_pathed(w, dir, '/');
    lemma_pathed(w, dir, '\\');
    lemma_escaped(w);
    lemma_quoted(w, '"');
    lemma_quoted(w, '\'');
    lemma_suffixed(w);
}

proof fn lemma_pathed(w: Seq<char>, dir: Seq<char>, c: char)
    requires
        is_plain(w),
        c == '/' || c == '\\',
    ensures
        bare_name(dir.push(c) + w) == w,
{
    let keep = |x: char| x != '\'' && x != '"' && x != '^';
    lemma_plain(w);
    let kept = dir.filter(keep);
    assert(dir.push(c).filter(keep) == kept.push(c)) by {
        reveal(Seq::filter);
        assert(dir.push(c).drop_last() =~= dir);
    }
    Seq::filter_distributes_over_add(dir.push(c), w, keep);
    let a = kept.push(c) + w;
    assert(unquoted(dir.push(c) + w) == a);
    let n = kept.len() as int;
    assert(a.skip(n + 1) =~= w);
    lemma_base(a, n + 1, w);
    if a[0] == '\\' {
        let rest = a.skip(1);
        if n == 0 {
            assert(rest =~= w);
            lemma_after_last(w, |x: char| x == '/' || x == '\\', 0);
            assert(w.skip(0) =~= w);
        } else {
            assert(rest.skip(n) =~= w);
            assert(rest[n - 1] == a[n]);
            lemma_base(rest, n, w);
        }
    }
    lemma_no_suffix(w);
}

proof fn lemma_no_suffix(w: Seq<char>)
    requires
        is_plain(w),
    ensures
        !has_suffix(lower(w), ".exe"@),
{
    lemma_plain(w);
    reveal_strlit(".exe");
    if has_suffix(w, ".exe"@) {
        assert(w.skip(w.len() - 4)[0] == w[w.len() - 4]);
        assert(".exe"@[0] == '.');
    }
}

proof fn lemma_escaped(w: Seq<char>)
    requires
        is_plain(w),
    ensures
        bare_name(seq!['\\'] + w) == w,
{
    let keep = |c: char| c != '\'' && c != '"' && c != '^';
    lemma_plain(w);
    let e = seq!['\\'] + w;
    assert forall|i: int| 0 <= i < e.len() implies keep(#[trigger] e[i]) by {
        if i > 0 {
            assert(e[i] == w[i - 1]);
        }
    }
    lemma_nothing_filtered(e, keep);
    assert(e.skip(1) =~= w);
    lemma_after_last(w, |x: char| x == '/' || x == '\\', 0);
    assert(w.skip(0) =~= w);
    lemma_no_suffix(w);
}

proof fn lemma_suffix_of(w: Seq<char>, e: Seq<char>)
    requires
        lower(e) == e,
    ensures
        has_suffix(lower(w + e), e),
        (w + e).take(w.len() as int) == w,
{
    let x = lower(w + e);
    let n = w.len() as int;
    assert((w + e).take(n) =~= w);
    assert(x.len() == n + e.len());
    assert(x.skip(n).len() == e.len());
    assert forall|k: int| 0 <= k < e.len() implies #[trigger] x.skip(n)[k] == e[k] by {
        assert((w + e)[n + k] == e[k]);
        assert(lower(e)[k] == lower_char(e[k]));
    }
    assert(x.skip(n) =~= e);
}

proof fn lemma_suffixed(w: Seq<char>)
    requires
        is_plain(w),
    ensures
        bare_name(w + ".exe"@) == w,
{
    let keep = |c: char| c != '\'' && c != '"' && c != '^';
    lemma_plain(w);
    reveal_strlit(".exe");
    let e = ".exe"@;
    let x = w + e;
    assert(lower(e) =~= e);
    lemma_suffix_of(w, e);
    assert forall|i: int| 0 <= i < x.len() implies keep(#[trigger] x[i]) && x[i] != '/' && x[i]
        != '\\' by {
        if i < w.len() {
            assert(x[i] == w[i]);
        } else {
            assert(x[i] == e[i - w.len()]);
        }
    }
    lemma_nothing_filtered(x, keep);
    lemma_after_last(x, |c: char| c == '/' || c == '\\', 0);
    assert(x.skip(0) =~= x);
    assert(e.len() == 4);
}

proof fn lemma_quoted(w: Seq<char>, q: char)
    requires
        is_plain(w),
        q == '"' || q == '\'',
    ensures
        bare_name(seq![q] + w + seq![q]) == w,
{
    let keep = |c: char| c != '\'' && c != '"' && c != '^';
    lemma_plain(w);
    let one = seq![q];
    reveal(Seq::filter);
    assert(one.drop_last() =~= Seq::empty());
    assert(Seq::<char>::empty().filter(keep) =~= Seq::empty());
    assert(!keep(one.last()));
    assert(one.filter(keep) =~= Seq::empty());
    Seq::filter_distributes_over_add(one + w, one, keep);
    Seq::filter_distributes_over_add(one, w, keep);
    assert(unquoted(one + w + one) =~= w);
}

proof fn lemma_base(a: Seq<char>, i: int, w: Seq<char>)
    requires
        is_plain(w),
        1 <= i <= a.len(),
        a.skip(i) == w,
        a[i - 1] == '/' || a[i - 1] == '\\',
    ensures
        after_last(a, |c: char| c == '/' || c == '\\') == w,
{
    lemma_plain(w);
    assert forall|k: int| i <= k < a.len() implies !(#[trigger] a[k] == '/' || a[k] == '\\') by {
        assert(a[k] == w[k - i]);
    }
    lemma_after_last(a, |c: char| c == '/' || c == '\\', i);
}

/// What a wrapper carries is read over: an argument that starts with a dash and goes on,
/// one with an equals sign, and a number with at most one of the units `s`, `m`, `h` and
/// `d`. Any other word is where the command starts.
pub proof fn law_options_are_read_over(token: Seq<char>, rest: Seq<char>)
    requires
        token.len() > 0,
        forall|i: int| 0 <= i < token.len() ==> !is_space(#[trigger] token[i]),
    ensures
        ({
            let n = token.len() as int;
            let digits = |k: int| k > 0 && forall|i: int| 0 <= i < k ==> '0' <= #[trigger] token[i] <= '9';
            let skipped = (n > 1 && token[0] == '-') || token.contains('=') || digits(n) || (digits(
                n - 1,
            ) && (token.last() == 's' || token.last() == 'm' || token.last() == 'h' || token.last()
                == 'd'));
            without_options(token + " "@ + rest) == (if skipped {
                without_options(rest)
            } else {
                token + " "@ + rest
            })
        }),
{
    reveal_strlit(" ");
    let t = token + " "@ + rest;
    let n = token.len() as int;
    assert(t[0] == token[0]);
    assert(trim_start(t) == t);
    lemma_first_where(t, |c: char| is_space(c), n);
    assert(t.take(n) =~= token);
    let after = t.skip(n);
    assert(after[0] == ' ');
    assert(after.skip(1) =~= rest);
    assert(trim_start(after) == trim_start(rest));
    assert(without_options(after) == without_options(rest));
    let digits = |k: int| k > 0 && forall|i: int| 0 <= i < k ==> '0' <= #[trigger] token[i] <= '9';
    assert(is_number(token) == digits(n)) by {
        if digits(n) {
            assert forall|i: int| 0 <= i < token.len() implies is_digit(#[trigger] token[i]) by {}
        }
        if is_number(token) {
            assert forall|i: int| 0 <= i < n implies '0' <= #[trigger] token[i] <= '9' by {
                assert(is_digit(token[i]));
            }
        }
    }
    assert(is_number(token.drop_last()) == digits(n - 1)) by {
        let d = token.drop_last();
        if digits(n - 1) {
            assert forall|i: int| 0 <= i < d.len() implies is_digit(#[trigger] d[i]) by {
                assert('0' <= token[i] <= '9');
            }
        }
        if is_number(d) {
            assert forall|i: int| 0 <= i < n - 1 implies '0' <= #[trigger] token[i] <= '9' by {
                assert(is_digit(d[i]));
            }
        }
    }
}

proof fn lemma_segments_hold(raw: Seq<Seq<char>>, depth: nat, i: int, s: Seq<char>)
    requires
        0 <= i < raw.len(),
        ({
            let segment = normalized(raw[i], MAX_WRAPPERS as nat);
            let payload = nested_payload(segment, shell_patterns().nested_shell);
            s == segment || (depth > 0 && payload is Some && all_segments(
                payload->0,
                (depth - 1) as nat,
            ).contains(s))
        }),
    ensures
        segments_of(raw, depth).contains(s),
    decreases raw.len(),
{
    let all = segments_of(raw, depth);
    let init = segments_of(raw.drop_last(), depth);
    if i < raw.len() - 1 {
        assert(raw.drop_last()[i] == raw[i]);
        lemma_segments_hold(raw.drop_last(), depth, i, s);
        let k = choose|k: int| 0 <= k < init.len() && init[k] == s;
        assert(all[k] == s);
    } else {
        let segment = normalized(raw.last(), MAX_WRAPPERS as nat);
        if s == segment {
            assert(all[init.len() as int] == s);
        } else {
            let payload = nested_payload(segment, shell_patterns().nested_shell)->0;
            let inner = all_segments(payload, (depth - 1) as nat);
            let k = choose|k: int| 0 <= k < inner.len() && inner[k] == s;
            assert(all[init.len() + 1 + k] == s);
        }
    }
}

/// Every statement of a command is looked at, and so is every statement of the command
/// that it hands to `sh`, `bash`, `zsh`, `pwsh`, `powershell` or `cmd`, as far down as
/// the depth goes.
pub proof fn law_nested_shells_are_looked_into(cmd: Seq<char>, i: int, depth: nat, s: Seq<char>)
    requires
        0 <= i < raw_segments(cmd).len(),
    ensures
        ({
            let segment = normalized(raw_segments(cmd)[i], MAX_WRAPPERS as nat);
            let head = first_token(segment);
            let posix = regex_found("^(sh|bash|zsh)$"@, head);
            let power = !posix && regex_found("(?i)^(pwsh|powershell)$"@, head);
            let dos = !posix && !power && regex_found("(?i)^cmd$"@, head);
            let capture = if posix {
                regex_group(r"(?:^|\s)-\w*c\s+([\s\S]+)$"@, segment)
            } else if power {
                regex_group(r"(?i)\s-c(?:ommand)?\s+([\s\S]+)$"@, segment)
            } else if dos {
                regex_group(r"(?i)\s/[ck]\s+([\s\S]+)$"@, segment)
            } else {
                None
            };
            &&& all_segments(cmd, depth).contains(segment)
            &&& head.len() > 0 && capture is Some && all_segments(
                payload_of(capture->0),
                depth,
            ).contains(s) ==> all_segments(cmd, depth + 1).contains(s)
        }),
{
    let raw = raw_segments(cmd);
    let segment = normalized(raw[i], MAX_WRAPPERS as nat);
    lemma_segments_hold(raw, depth, i, segment);
    let rows = shell_patterns().nested_shell;
    assert(rows.len() == 3);
    assert(rows[0] == ("^(sh|bash|zsh)$"@, r"(?:^|\s)-\w*c\s+([\s\S]+)$"@));
    assert(rows[1] == ("(?i)^(pwsh|powershell)$"@, r"(?i)\s-c(?:ommand)?\s+([\s\S]+)$"@));
    assert(rows[2] == ("(?i)^cmd$"@, r"(?i)\s/[ck]\s+([\s\S]+)$"@));
    assert(rows.skip(1)[0] == rows[1]);
    assert(rows.skip(1).skip(1)[0] == rows[2]);
    reveal_with_fuel(nested_payload, 4);
    let payload = nested_payload(segment, rows);
    if payload is Some && all_segments(payload->0, depth).contains(s) {
        lemma_segments_hold(raw, depth + 1, i, s);
    }
}

/// The command inside a nested shell is what stands between the quotes, where the whole
/// of it is quoted, and otherwise all of it; white space around it does not count.
pub proof fn law_payloads_are_unwrapped(x: Seq<char>)
    ensures
        payload_of(seq!['\''] + x + seq!['\'']) == x,
        payload_of(seq!['"'] + x + seq!['"']) == x,
        payload_of(seq![' '] + x) == payload_of(x),
        x.len() > 0 && !is_space(x[0]) && !is_space(x.last()) && x[0] != '\'' && x[0] != '"'
            ==> payload_of(x) == x,
{
    lemma_space_in_front(x);
    assert forall|q: char| q == '\'' || q == '"' implies #[trigger] payload_of(seq![q] + x + seq![q])
        == x by {
        let t = seq![q] + x + seq![q];
        assert(t[0] == q && t.last() == q);
        assert(trim_start(t) == t);
        assert(trim(t) == t);
        assert(t.subrange(1, t.len() - 1) =~= x);
    }
}

/// Wrappers are looked through five deep, and nested shells two.
pub proof fn law_depths(cmd: Seq<char>)
    ensures
        MAX_WRAPPERS == 5,
        !cmd.contains('`') ==> considered(cmd) == all_segments(cmd, 2),
{
}

} // verus!
