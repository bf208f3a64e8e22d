//! What each agent is told about a shell command that it is about to run.
//!
//! The permission rules and the rewrite registry are asked elsewhere. The functions here take
//! their answers and decide what is logged and what the agent gets to read.
use vstd::prelude::*;
use vstd::string::StringExecFns;
use vstd::utf8::*;

use crate::audit::{AuditEntry, AuditView};
use crate::json::{
    json_read, json_text, nesting_limit, parse_json, reads_as, reads_like, render_json, Json,
    JsonVal,
};
use crate::text::{chars_of, same_text, split_whitespace, text_view, texts, words};

verus! {

/// The most bytes that a hook reads from its input: 1 MiB.
pub const STDIN_CAP: usize = 1_048_576;

/// What the permission rules say of a command.
#[derive(Debug, Clone, Copy, PartialEq, Eq, Structural)]
pub enum PermissionVerdict {
    /// An allow rule matches.
    Allow,
    /// A deny rule matches.
    Deny,
    /// An ask rule matches, or no rule does.
    Ask,
}

/// What VS Code is told about permission where no allow rule matches.
#[derive(Debug, Clone, Copy, PartialEq, Eq, Structural)]
pub enum CopilotPermission {
    Allow,
    Ask,
    Omit,
}

/// The settings of the hooks.
#[derive(Debug, PartialEq, Eq)]
pub struct HooksConfig {
    pub exclude_commands: Vec<String>,
    pub transparent_prefixes: Vec<String>,
    pub copilot_permission: CopilotPermission,
}

/// What the settings of the hooks say.
#[verifier::ext_equal]
pub struct ConfigView {
    pub exclude_commands: Seq<Seq<char>>,
    pub transparent_prefixes: Seq<Seq<char>>,
    pub copilot_permission: CopilotPermission,
}

impl View for HooksConfig {
    type V = ConfigView;

    open spec fn view(&self) -> ConfigView {
        ConfigView {
            exclude_commands: texts(self.exclude_commands@),
            transparent_prefixes: texts(self.transparent_prefixes@),
            copilot_permission: self.copilot_permission,
        }
    }
}

/// What optional settings say.
pub open spec fn config_view(config: Option<HooksConfig>) -> Option<ConfigView> {
    match config {
        Some(config) => Some(config@),
        None => None,
    }
}

/// The settings in force: those that were loaded, or else no exclusions, no prefixes, and no
/// word on permission.
pub open spec fn config_in_force(loaded: Option<ConfigView>) -> ConfigView {
    match loaded {
        Some(config) => config,
        None => ConfigView {
            exclude_commands: seq![],
            transparent_prefixes: seq![],
            copilot_permission: CopilotPermission::Omit,
        },
    }
}

impl HooksConfig {
    /// The settings in force.
    pub fn or_default(loaded: Option<HooksConfig>) -> (res: HooksConfig)
        ensures
            res@ == config_in_force(config_view(loaded)),
    {
        match loaded {
            Some(config) => config,
            None => HooksConfig {
                exclude_commands: Vec::new(),
                transparent_prefixes: Vec::new(),
                copilot_permission: CopilotPermission::Omit,
            },
        }
    }
}

/// What the rewrite registry says of a command.
#[derive(Debug, PartialEq, Eq)]
pub enum RegistryAnswer {
    /// The command holds a here-document.
    Heredoc,
    /// It holds none; the registry proposes this command in its place, or none.
    Rewrite(Option<String>),
}

/// What a registry answer says.
#[verifier::ext_equal]
pub enum RegistryView {
    Heredoc,
    Rewrite(Option<Seq<char>>),
}

impl View for RegistryAnswer {
    type V = RegistryView;

    open spec fn view(&self) -> RegistryView {
        match *self {
            RegistryAnswer::Heredoc => RegistryView::Heredoc,
            RegistryAnswer::Rewrite(candidate) => RegistryView::Rewrite(text_view(candidate)),
        }
    }
}

/// Why a hook fails.
#[derive(Debug, PartialEq, Eq)]
pub enum HookError {
    /// The input is longer than [`STDIN_CAP`].
    InputTooLong,
    /// The input is no JSON; the parser's complaint.
    BadJson(String),
}

impl HookError {
    /// The message for the user.
    pub fn message(&self) -> (res: String)
        ensures
            match *self {
                HookError::InputTooLong => res@ == "hook stdin exceeds 1048576 byte limit"@,
                HookError::BadJson(_) => res@ == "Failed to parse hook input as JSON"@,
            },
    {
        match self {
            HookError::InputTooLong => "hook stdin exceeds 1048576 byte limit".to_owned(),
            HookError::BadJson(_) => "Failed to parse hook input as JSON".to_owned(),
        }
    }
}

/// Refuses input of more than [`STDIN_CAP`] bytes.
pub fn limit_input(input: String) -> (res: Result<String, HookError>)
    ensures
        encode_utf8(input@).len() <= STDIN_CAP ==> res == Ok::<String, HookError>(input),
        encode_utf8(input@).len() > STDIN_CAP ==> res == Err::<String, HookError>(
            HookError::InputTooLong,
        ),
{
    if input.as_str().as_bytes().len() > STDIN_CAP {
        Err(HookError::InputTooLong)
    } else {
        Ok(input)
    }
}

/// A text, unless it is empty.
pub open spec fn unless_empty(s: Option<Seq<char>>) -> Option<Seq<char>> {
    match s {
        Some(s) => if s.len() == 0 {
            None
        } else {
            Some(s)
        },
        None => None,
    }
}

/// The command that a hook call is about: the text at `tool_input.command`, unless it is empty.
pub open spec fn command_of(v: JsonVal) -> Option<Seq<char>> {
    match v.member("tool_input"@) {
        Some(tool_input) => unless_empty(tool_input.member_text("command"@)),
        None => None,
    }
}

/// The command that a hook call is about.
pub fn payload_command(v: &Json) -> (res: Option<&str>)
    ensures
        match res {
            Some(cmd) => command_of(v@) == Some(cmd@),
            None => command_of(v@) is None,
        },
{
    match v.get("tool_input") {
        Some(tool_input) => match tool_input.get_str("command") {
            Some(cmd) => if cmd.is_empty() {
                None
            } else {
                Some(cmd)
            },
            None => None,
        },
        None => None,
    }
}

/// Format detected from the preToolUse JSON input.
#[derive(Debug, PartialEq, Eq)]
pub enum HookFormat {
    /// VS Code Copilot Chat: `tool_name` and `tool_input.command`, takes an updated input.
    VsCode { command: String },
    /// Copilot CLI: `toolName` and `toolArgs` (a JSON text), takes a refusal with a suggestion.
    CopilotCli { command: String },
    /// Another tool, a single command that already uses rtk, or an unknown format.
    PassThrough,
}

/// What a detected format says.
#[verifier::ext_equal]
pub enum FormatView {
    VsCode(Seq<char>),
    CopilotCli(Seq<char>),
    PassThrough,
}

impl View for HookFormat {
    type V = FormatView;

    open spec fn view(&self) -> FormatView {
        match *self {
            HookFormat::VsCode { command } => FormatView::VsCode(command@),
            HookFormat::CopilotCli { command } => FormatView::CopilotCli(command@),
            HookFormat::PassThrough => FormatView::PassThrough,
        }
    }
}

/// Whether VS Code runs shell commands under this tool name.
pub open spec fn is_shell_tool(tool: Seq<char>) -> bool {
    ||| tool == "runTerminalCommand"@
    ||| tool == "run_in_terminal"@
    ||| tool == "Bash"@
    ||| tool == "bash"@
}

/// Whether a character ends one command of a shell line and begins the next: `&`, `|`, `;` or
/// a newline.
pub open spec fn parts_commands(c: char) -> bool {
    c == '&' || c == '|' || c == ';' || c == '\n'
}

/// Whether a line holds one command only.
pub open spec fn is_single(cmd: Seq<char>) -> bool {
    forall|i: int| 0 <= i < cmd.len() ==> !parts_commands(#[trigger] cmd[i])
}

/// Whether a command already uses rtk: it is a single one, and its first word is `rtk`. Of a
/// line with more commands the others may still be in need of rtk.
pub open spec fn uses_rtk(cmd: Seq<char>) -> bool {
    is_single(cmd) && words(cmd).len() > 0 && words(cmd)[0] == "rtk"@
}

/// Tells whether a line holds one command only.
fn single_command(cmd: &str) -> (res: bool)
    ensures
        res == is_single(cmd@),
{
    let chars = chars_of(cmd);
    let mut i: usize = 0;
    while i < chars.len()
        invariant
            i <= chars.len(),
            chars@ == cmd@,
            forall|j: int| 0 <= j < i ==> !parts_commands(#[trigger] cmd@[j]),
        decreases chars.len() - i,
    {
        let c = chars[i];
        if c == '&' || c == '|' || c == ';' || c == '\n' {
            assert(parts_commands(cmd@[i as int]));
            return false;
        }
        i += 1;
    }
    true
}

/// Tells whether a command already uses rtk.
pub fn already_uses_rtk(cmd: &str) -> (res: bool)
    ensures
        res == uses_rtk(cmd@),
{
    let parts = split_whitespace(cmd);
    assert(texts(parts@).len() == parts@.len());
    if parts.len() == 0 {
        return false;
    }
    assert(texts(parts@)[0] == parts@[0]@);
    same_text(parts[0].as_str(), "rtk") && single_command(cmd)
}

/// The format of a call, given the document in its `toolArgs`. A command that already uses rtk
/// is left alone.
pub open spec fn format_of(v: JsonVal, tool_args: Option<JsonVal>) -> FormatView {
    match v.member_text("tool_name"@) {
        Some(tool) => match command_of(v) {
            Some(command) if is_shell_tool(tool) && !uses_rtk(command) => FormatView::VsCode(
                command,
            ),
            _ => FormatView::PassThrough,
        },
        None => if v.member_text("toolName"@) == Some("bash"@) {
            match tool_args {
                Some(args) => match unless_empty(args.member_text("command"@)) {
                    Some(command) if !uses_rtk(command) => FormatView::CopilotCli(command),
                    _ => FormatView::PassThrough,
                },
                None => FormatView::PassThrough,
            }
        } else {
            FormatView::PassThrough
        },
    }
}

/// The document in the `toolArgs` of a call, if it can be read.
pub open spec fn tool_args_of(v: JsonVal) -> Option<JsonVal> {
    match v.member_text("toolArgs"@) {
        Some(text) => json_read(text),
        None => None,
    }
}

/// What an optional document says.
pub open spec fn json_view(v: Option<Json>) -> Option<JsonVal> {
    match v {
        Some(v) => Some(v@),
        None => None,
    }
}

/// The format of a call, given the document in its `toolArgs`.
pub fn detect_format_with(v: &Json, tool_args: Option<Json>) -> (res: HookFormat)
    ensures
        res@ == format_of(v@, json_view(tool_args)),
{
    match v.get_str("tool_name") {
        Some(tool) => {
            if same_text(tool, "runTerminalCommand") || same_text(tool, "run_in_terminal")
                || same_text(tool, "Bash") || same_text(tool, "bash") {
                if let Some(command) = payload_command(v) {
                    if !already_uses_rtk(command) {
                        return HookFormat::VsCode { command: command.to_owned() };
                    }
                }
            }
            return HookFormat::PassThrough;
        },
        None => {},
    }
    if let Some(tool) = v.get_str("toolName") {
        if same_text(tool, "bash") {
            if let Some(args) = &tool_args {
                if let Some(command) = args.get_str("command") {
                    if !command.is_empty() && !already_uses_rtk(command) {
                        return HookFormat::CopilotCli { command: command.to_owned() };
                    }
                }
            }
        }
    }
    HookFormat::PassThrough
}

/// The format of a call.
pub fn detect_format(v: &Json) -> (res: HookFormat)
    ensures
        res@ == format_of(v@, tool_args_of(v@)),
{
    let tool_args = match v.get_str("toolArgs") {
        Some(text) => match parse_json(text) {
            Ok(args) => Some(args),
            Err(_) => None,
        },
        None => None,
    };
    detect_format_with(v, tool_args)
}

/// The rewritten command, if there is one: none for a here-document, and none that merely
/// repeats the command.
pub open spec fn rewriting(cmd: Seq<char>, answer: RegistryView) -> Option<Seq<char>> {
    match answer {
        RegistryView::Rewrite(Some(candidate)) => if candidate == cmd {
            None
        } else {
            Some(candidate)
        },
        _ => None,
    }
}

/// The rewritten command that the registry's answer amounts to.
pub fn get_rewritten(cmd: &str, answer: RegistryAnswer) -> (res: Option<String>)
    ensures
        text_view(res) == rewriting(cmd@, answer@),
{
    match answer {
        RegistryAnswer::Heredoc => None,
        RegistryAnswer::Rewrite(None) => None,
        RegistryAnswer::Rewrite(Some(candidate)) => if same_text(candidate.as_str(), cmd) {
            None
        } else {
            Some(candidate)
        },
    }
}

/// What an agent gets to read.
#[derive(Debug, PartialEq, Eq)]
pub enum Reply {
    Silent,
    Literal(&'static str),
    Document(Json),
}

/// What a reply says.
#[verifier::ext_equal]
pub enum ReplyView {
    Silent,
    Literal(Seq<char>),
    Document(JsonVal),
}

impl View for Reply {
    type V = ReplyView;

    open spec fn view(&self) -> ReplyView {
        match *self {
            Reply::Silent => ReplyView::Silent,
            Reply::Literal(s) => ReplyView::Literal(s@),
            Reply::Document(document) => ReplyView::Document(document@),
        }
    }
}

impl ReplyView {
    /// The line that the reply is written as.
    pub open spec fn line(self) -> Option<Seq<char>> {
        match self {
            ReplyView::Silent => None,
            ReplyView::Literal(s) => Some(s),
            ReplyView::Document(document) => Some(json_text(document)),
        }
    }
}

impl Reply {
    /// The line that the reply is written as, without the newline behind it.
    pub fn line(&self) -> (res: Option<String>)
        ensures
            text_view(res) == self@.line(),
            match (*self, res) {
                (Reply::Document(document), Some(line)) => {
                    &&& !line@.contains('\n')
                    &&& document@.within(nesting_limit(), true) ==> reads_like(line@, document@)
                    &&& document@.within(nesting_limit(), false) ==> reads_as(line@, document@)
                },
                _ => true,
            },
    {
        match self {
            Reply::Silent => None,
            Reply::Literal(s) => Some((*s).to_owned()),
            Reply::Document(document) => Some(render_json(document)),
        }
    }
}

/// How a hook call ends: what is logged, what the agent reads, what goes to standard error.
#[derive(Debug, PartialEq, Eq)]
pub struct HookOutcome {
    pub audit: Option<AuditEntry>,
    pub reply: Reply,
    pub complaint: Option<String>,
}

/// What an outcome says.
#[verifier::ext_equal]
pub struct OutcomeView {
    pub audit: Option<AuditView>,
    pub reply: ReplyView,
    pub complaint: Option<Seq<char>>,
}

/// What an optional audit entry says.
pub open spec fn audit_view(entry: Option<AuditEntry>) -> Option<AuditView> {
    match entry {
        Some(entry) => Some(entry@),
        None => None,
    }
}

impl View for HookOutcome {
    type V = OutcomeView;

    open spec fn view(&self) -> OutcomeView {
        OutcomeView {
            audit: audit_view(self.audit),
            reply: self.reply@,
            complaint: text_view(self.complaint),
        }
    }
}

impl OutcomeView {
    /// Nothing is logged; the agent reads `reply`.
    pub open spec fn unlogged(reply: ReplyView) -> OutcomeView {
        OutcomeView { audit: None, reply, complaint: None }
    }

    /// One decision is logged; the agent reads `reply`.
    pub open spec fn logged(
        action: Seq<char>,
        original: Seq<char>,
        rewritten: Seq<char>,
        reply: ReplyView,
    ) -> OutcomeView {
        OutcomeView {
            audit: Some(AuditView { action, original, rewritten }),
            reply,
            complaint: None,
        }
    }

    /// Nothing is logged and the agent reads nothing; standard error gets a line.
    pub open spec fn complaining(complaint: Seq<char>) -> OutcomeView {
        OutcomeView { audit: None, reply: ReplyView::Silent, complaint: Some(complaint) }
    }
}

impl HookOutcome {
    /// Logs nothing; the agent reads `reply`.
    pub fn unlogged(reply: Reply) -> (res: HookOutcome)
        ensures
            res@ == OutcomeView::unlogged(reply@),
    {
        HookOutcome { audit: None, reply, complaint: None }
    }

    /// Logs one decision; the agent reads `reply`.
    pub fn logged(action: &str, original: &str, rewritten: &str, reply: Reply) -> (res: HookOutcome)
        ensures
            res@ == OutcomeView::logged(action@, original@, rewritten@, reply@),
    {
        HookOutcome {
            audit: Some(AuditEntry::new(action, original, rewritten)),
            reply,
            complaint: None,
        }
    }

    /// The outcome for input that is no JSON, for the agents that are told nothing about it.
    pub fn bad_input(complaint: &str) -> (res: HookOutcome)
        ensures
            res@ == OutcomeView::complaining(
                "[rtk hook] Failed to parse JSON input: "@ + complaint@,
            ),
    {
        HookOutcome {
            audit: None,
            reply: Reply::Silent,
            complaint: Some(
                "[rtk hook] Failed to parse JSON input: ".to_owned().concat(complaint),
            ),
        }
    }
}

/// The object with `command` as its only member.
pub open spec fn command_object(cmd: Seq<char>) -> JsonVal {
    JsonVal::empty_object().with_member("command"@, JsonVal::Text(cmd))
}

fn command_json(cmd: &str) -> (res: Json)
    ensures
        res@ == command_object(cmd@),
{
    let mut res = Json::empty_object();
    res.set("command", Json::text(cmd));
    res
}

/// The document that hands an updated input to an agent that speaks PreToolUse, with a
/// permission decision if there is one.
pub open spec fn hook_document(updated_input: JsonVal, decision: Option<Seq<char>>) -> JsonVal {
    let plain = JsonVal::empty_object().with_member(
        "hookEventName"@,
        JsonVal::Text("PreToolUse"@),
    ).with_member("permissionDecisionReason"@, JsonVal::Text("RTK auto-rewrite"@)).with_member(
        "updatedInput"@,
        updated_input,
    );
    let hook_output = match decision {
        Some(decision) => plain.with_member("permissionDecision"@, JsonVal::Text(decision)),
        None => plain,
    };
    JsonVal::empty_object().with_member("hookSpecificOutput"@, hook_output)
}

fn hook_json(updated_input: Json, decision: Option<&str>) -> (res: Json)
    ensures
        res@ == hook_document(
            updated_input@,
            match decision {
                Some(decision) => Some(decision@),
                None => None,
            },
        ),
{
    let mut hook_output = Json::empty_object();
    hook_output.set("hookEventName", Json::text("PreToolUse"));
    hook_output.set("permissionDecisionReason", Json::text("RTK auto-rewrite"));
    hook_output.set("updatedInput", updated_input);
    if let Some(decision) = decision {
        hook_output.set("permissionDecision", Json::text(decision));
    }
    let mut res = Json::empty_object();
    res.set("hookSpecificOutput", hook_output);
    res
}

// VS Code Copilot Chat.

/// The permission decision for VS Code: an allow rule always allows, else the setting decides.
pub open spec fn vscode_decision(
    verdict: PermissionVerdict,
    setting: CopilotPermission,
) -> Option<Seq<char>> {
    match (verdict, setting) {
        (PermissionVerdict::Allow, _) => Some("allow"@),
        (_, CopilotPermission::Allow) => Some("allow"@),
        (_, CopilotPermission::Ask) => Some("ask"@),
        (_, CopilotPermission::Omit) => None,
    }
}

/// The outcome for VS Code.
pub open spec fn vscode_outcome(
    cmd: Seq<char>,
    verdict: PermissionVerdict,
    rewritten: Option<Seq<char>>,
    setting: CopilotPermission,
) -> OutcomeView {
    match (verdict, rewritten) {
        (PermissionVerdict::Deny, _) => OutcomeView::logged(
            "deny"@,
            cmd,
            ""@,
            ReplyView::Silent,
        ),
        (_, None) => OutcomeView::unlogged(ReplyView::Silent),
        (_, Some(rewritten)) => OutcomeView::logged(
            "rewrite"@,
            cmd,
            rewritten,
            ReplyView::Document(
                hook_document(command_object(rewritten), vscode_decision(verdict, setting)),
            ),
        ),
    }
}

/// Decides what VS Code is told about a command.
pub fn handle_vscode(
    cmd: &str,
    verdict: PermissionVerdict,
    rewritten: Option<String>,
    copilot_perm: CopilotPermission,
) -> (res: HookOutcome)
    ensures
        res@ == vscode_outcome(cmd@, verdict, text_view(rewritten), copilot_perm),
{
    if verdict == PermissionVerdict::Deny {
        return HookOutcome::logged("deny", cmd, "", Reply::Silent);
    }
    let rewritten = match rewritten {
        Some(rewritten) => rewritten,
        None => return HookOutcome::unlogged(Reply::Silent),
    };
    let decision = match verdict {
        PermissionVerdict::Allow => Some("allow"),
        _ => match copilot_perm {
            CopilotPermission::Allow => Some("allow"),
            CopilotPermission::Ask => Some("ask"),
            CopilotPermission::Omit => None,
        },
    };
    let document = hook_json(command_json(rewritten.as_str()), decision);
    HookOutcome::logged("rewrite", cmd, rewritten.as_str(), Reply::Document(document))
}

// Copilot CLI.

/// The suggestion that Copilot CLI shows with a refusal.
pub open spec fn suggestion(rewritten: Seq<char>) -> Seq<char> {
    "Token savings: use `"@ + rewritten + "` instead (rtk saves 60-90% tokens)"@
}

/// The document that refuses a command and suggests the rewritten one.
pub open spec fn refusal_document(rewritten: Seq<char>) -> JsonVal {
    JsonVal::empty_object().with_member("permissionDecision"@, JsonVal::Text("deny"@)).with_member(
        "permissionDecisionReason"@,
        JsonVal::Text(suggestion(rewritten)),
    )
}

/// The outcome for Copilot CLI.
pub open spec fn copilot_cli_outcome(
    cmd: Seq<char>,
    verdict: PermissionVerdict,
    rewritten: Option<Seq<char>>,
) -> OutcomeView {
    match (verdict, rewritten) {
        (PermissionVerdict::Deny, _) => OutcomeView::logged(
            "deny"@,
            cmd,
            ""@,
            ReplyView::Silent,
        ),
        (_, None) => OutcomeView::unlogged(ReplyView::Silent),
        (_, Some(rewritten)) => OutcomeView::logged(
            "rewrite"@,
            cmd,
            rewritten,
            ReplyView::Document(refusal_document(rewritten)),
        ),
    }
}

/// Decides what Copilot CLI is told about a command.
pub fn handle_copilot_cli(
    cmd: &str,
    verdict: PermissionVerdict,
    rewritten: Option<String>,
) -> (res: HookOutcome)
    ensures
        res@ == copilot_cli_outcome(cmd@, verdict, text_view(rewritten)),
{
    if verdict == PermissionVerdict::Deny {
        return HookOutcome::logged("deny", cmd, "", Reply::Silent);
    }
    let rewritten = match rewritten {
        Some(rewritten) => rewritten,
        None => return HookOutcome::unlogged(Reply::Silent),
    };
    let mut reason = "Token savings: use `".to_owned();
    reason.append(rewritten.as_str());
    reason.append("` instead (rtk saves 60-90% tokens)");
    let mut document = Json::empty_object();
    document.set("permissionDecision", Json::text("deny"));
    document.set("permissionDecisionReason", Json::Text(reason));
    HookOutcome::logged("rewrite", cmd, rewritten.as_str(), Reply::Document(document))
}

// Gemini CLI.

/// The reply that lets a tool call of Gemini pass as it is.
pub open spec fn gemini_allow() -> ReplyView {
    ReplyView::Literal("{\"decision\":\"allow\"}"@)
}

/// The reply that stops a tool call of Gemini.
pub open spec fn gemini_deny() -> ReplyView {
    ReplyView::Literal("{\"decision\":\"deny\",\"reason\":\"Blocked by RTK permission rule\"}"@)
}

/// The document that lets a tool call of Gemini pass with another command.
pub open spec fn gemini_rewrite(cmd: Seq<char>) -> JsonVal {
    JsonVal::empty_object().with_member("decision"@, JsonVal::Text("allow"@)).with_member(
        "hookSpecificOutput"@,
        JsonVal::empty_object().with_member("tool_input"@, command_object(cmd)),
    )
}

/// The reply that lets a tool call of Gemini pass as it is.
pub fn print_allow() -> (res: Reply)
    ensures
        res@ == gemini_allow(),
{
    Reply::Literal("{\"decision\":\"allow\"}")
}

/// The reply that lets a tool call of Gemini pass with another command.
pub fn print_rewrite(cmd: &str) -> (res: Reply)
    ensures
        res@ == ReplyView::Document(gemini_rewrite(cmd@)),
{
    let mut hook_output = Json::empty_object();
    hook_output.set("tool_input", command_json(cmd));
    let mut document = Json::empty_object();
    document.set("decision", Json::text("allow"));
    document.set("hookSpecificOutput", hook_output);
    Reply::Document(document)
}

/// The command of a call of Gemini's shell tool; other calls are none of the hook's business.
pub open spec fn gemini_command(v: JsonVal) -> Option<Seq<char>> {
    if v.member_text("tool_name"@) == Some("run_shell_command"@) {
        command_of(v)
    } else {
        None
    }
}

/// The command of a call of Gemini's shell tool.
pub fn gemini_payload_command(v: &Json) -> (res: Option<&str>)
    ensures
        match res {
            Some(cmd) => gemini_command(v@) == Some(cmd@),
            None => gemini_command(v@) is None,
        },
{
    match v.get_str("tool_name") {
        Some(tool) => if same_text(tool, "run_shell_command") {
            payload_command(v)
        } else {
            None
        },
        None => None,
    }
}

/// The outcome for Gemini. `candidate` is what the registry proposes; Gemini gets it even where
/// it repeats the command.
pub open spec fn gemini_outcome(
    cmd: Seq<char>,
    verdict: PermissionVerdict,
    candidate: Option<Seq<char>>,
) -> OutcomeView {
    match (verdict, candidate) {
        (PermissionVerdict::Deny, _) => OutcomeView::unlogged(gemini_deny()),
        (_, None) => OutcomeView::unlogged(gemini_allow()),
        (_, Some(candidate)) => OutcomeView::logged(
            "rewrite"@,
            cmd,
            candidate,
            ReplyView::Document(gemini_rewrite(candidate)),
        ),
    }
}

/// Decides what Gemini is told about a command.
pub fn handle_gemini(
    cmd: &str,
    verdict: PermissionVerdict,
    candidate: Option<String>,
) -> (res: HookOutcome)
    ensures
        res@ == gemini_outcome(cmd@, verdict, text_view(candidate)),
{
    if verdict == PermissionVerdict::Deny {
        return HookOutcome::unlogged(
            Reply::Literal(
                "{\"decision\":\"deny\",\"reason\":\"Blocked by RTK permission rule\"}",
            ),
        );
    }
    match candidate {
        Some(candidate) => {
            let reply = print_rewrite(candidate.as_str());
            HookOutcome::logged("rewrite", cmd, candidate.as_str(), reply)
        },
        None => HookOutcome::unlogged(print_allow()),
    }
}

// The native PreToolUse hook.

/// What the native PreToolUse hook does with a call.
#[derive(Debug, PartialEq, Eq)]
pub enum PayloadAction {
    Rewrite { cmd: String, rewritten: String, output: Json },
    Skip { reason: &'static str, cmd: String },
    Ignore,
}

/// What a payload action says.
#[verifier::ext_equal]
pub enum ActionView {
    Rewrite { cmd: Seq<char>, rewritten: Seq<char>, output: JsonVal },
    Skip { reason: Seq<char>, cmd: Seq<char> },
    Ignore,
}

impl View for PayloadAction {
    type V = ActionView;

    open spec fn view(&self) -> ActionView {
        match *self {
            PayloadAction::Rewrite { cmd, rewritten, output } => ActionView::Rewrite {
                cmd: cmd@,
                rewritten: rewritten@,
                output: output@,
            },
            PayloadAction::Skip { reason, cmd } => ActionView::Skip { reason: reason@, cmd: cmd@ },
            PayloadAction::Ignore => ActionView::Ignore,
        }
    }
}

/// The tool input of a call with the command replaced and all else kept.
pub open spec fn updated_input(v: JsonVal, rewritten: Seq<char>) -> JsonVal {
    match v.member("tool_input"@) {
        Some(tool_input) => tool_input,
        None => JsonVal::empty_object(),
    }.with_member("command"@, JsonVal::Text(rewritten))
}

/// The permission decision of the native PreToolUse hook: only an allow rule is passed on.
pub open spec fn claude_decision(verdict: PermissionVerdict) -> Option<Seq<char>> {
    if verdict == PermissionVerdict::Allow {
        Some("allow"@)
    } else {
        None
    }
}

/// What the native PreToolUse hook does with a call.
pub open spec fn claude_action(
    v: JsonVal,
    verdict: PermissionVerdict,
    rewritten: Option<Seq<char>>,
) -> ActionView {
    match (command_of(v), verdict, rewritten) {
        (None, _, _) => ActionView::Ignore,
        (Some(cmd), PermissionVerdict::Deny, _) => ActionView::Skip {
            reason: "skip:deny_rule"@,
            cmd,
        },
        (Some(cmd), _, None) => ActionView::Skip { reason: "skip:no_match"@, cmd },
        (Some(cmd), _, Some(rewritten)) => ActionView::Rewrite {
            cmd,
            rewritten,
            output: hook_document(updated_input(v, rewritten), claude_decision(verdict)),
        },
    }
}

/// Decides what the native PreToolUse hook does with a call.
pub fn process_claude_payload(
    v: &Json,
    verdict: PermissionVerdict,
    rewritten: Option<String>,
) -> (res: PayloadAction)
    ensures
        res@ == claude_action(v@, verdict, text_view(rewritten)),
{
    let cmd = match payload_command(v) {
        Some(cmd) => cmd,
        None => return PayloadAction::Ignore,
    };
    if verdict == PermissionVerdict::Deny {
        return PayloadAction::Skip { reason: "skip:deny_rule", cmd: cmd.to_owned() };
    }
    let rewritten = match rewritten {
        Some(rewritten) => rewritten,
        None => return PayloadAction::Skip { reason: "skip:no_match", cmd: cmd.to_owned() },
    };
    let mut tool_input = match v.get("tool_input") {
        Some(tool_input) => tool_input.clone(),
        None => Json::empty_object(),
    };
    tool_input.set("command", Json::text(rewritten.as_str()));
    let decision = if verdict == PermissionVerdict::Allow {
        Some("allow")
    } else {
        None
    };
    let output = hook_json(tool_input, decision);
    PayloadAction::Rewrite { cmd: cmd.to_owned(), rewritten, output }
}

/// The outcome that an action of the native PreToolUse hook leads to.
pub open spec fn action_outcome(action: ActionView) -> OutcomeView {
    match action {
        ActionView::Rewrite { cmd, rewritten, output } => OutcomeView::logged(
            "rewrite"@,
            cmd,
            rewritten,
            ReplyView::Document(output),
        ),
        ActionView::Skip { reason, cmd } => OutcomeView::logged(
            reason,
            cmd,
            ""@,
            ReplyView::Silent,
        ),
        ActionView::Ignore => OutcomeView::unlogged(ReplyView::Silent),
    }
}

/// The outcome that an action of the native PreToolUse hook leads to.
pub fn handle_claude(action: PayloadAction) -> (res: HookOutcome)
    ensures
        res@ == action_outcome(action@),
{
    match action {
        PayloadAction::Rewrite { cmd, rewritten, output } => HookOutcome::logged(
            "rewrite",
            cmd.as_str(),
            rewritten.as_str(),
            Reply::Document(output),
        ),
        PayloadAction::Skip { reason, cmd } => HookOutcome::logged(
            reason,
            cmd.as_str(),
            "",
            Reply::Silent,
        ),
        PayloadAction::Ignore => HookOutcome::unlogged(Reply::Silent),
    }
}

// Cursor.

/// The reply that tells Cursor nothing.
pub open spec fn cursor_pass() -> ReplyView {
    ReplyView::Literal("{}"@)
}

/// The document that hands an updated input to Cursor. Cursor ignores the update unless the
/// call is allowed, and shows nothing of it unless it is told to continue.
pub open spec fn cursor_document(rewritten: Seq<char>) -> JsonVal {
    JsonVal::empty_object().with_member("continue"@, JsonVal::Bool(true)).with_member(
        "permission"@,
        JsonVal::Text("allow"@),
    ).with_member("updated_input"@, command_object(rewritten))
}

/// The outcome for Cursor.
pub open spec fn cursor_outcome(
    cmd: Seq<char>,
    verdict: PermissionVerdict,
    rewritten: Option<Seq<char>>,
) -> OutcomeView {
    match (verdict, rewritten) {
        (PermissionVerdict::Deny, _) => OutcomeView::logged("deny"@, cmd, ""@, cursor_pass()),
        (_, None) => OutcomeView::unlogged(cursor_pass()),
        (_, Some(rewritten)) => OutcomeView::logged(
            "rewrite"@,
            cmd,
            rewritten,
            ReplyView::Document(cursor_document(rewritten)),
        ),
    }
}

/// Decides what Cursor is told about a command.
pub fn handle_cursor(
    cmd: &str,
    verdict: PermissionVerdict,
    rewritten: Option<String>,
) -> (res: HookOutcome)
    ensures
        res@ == cursor_outcome(cmd@, verdict, text_view(rewritten)),
{
    if verdict == PermissionVerdict::Deny {
        return HookOutcome::logged("deny", cmd, "", Reply::Literal("{}"));
    }
    let rewritten = match rewritten {
        Some(rewritten) => rewritten,
        None => return HookOutcome::unlogged(Reply::Literal("{}")),
    };
    let mut document = Json::empty_object();
    document.set("continue", Json::Bool(true));
    document.set("permission", Json::text("allow"));
    document.set("updated_input", command_json(rewritten.as_str()));
    HookOutcome::logged("rewrite", cmd, rewritten.as_str(), Reply::Document(document))
}

// What the values of this module say.

/// The limit on the input is one mebibyte.
pub proof fn law_the_limit_is_a_mebibyte()
    ensures
        STDIN_CAP == 1024 * 1024,
{
}

/// Settings and answers say what they hold.
pub proof fn law_answers_say_what_they_hold(
    config: HooksConfig,
    answer: RegistryAnswer,
    document: Json,
)
    ensures
        config@.exclude_commands == texts(config.exclude_commands@),
        config@.transparent_prefixes == texts(config.transparent_prefixes@),
        config@.copilot_permission == config.copilot_permission,
        config_view(Some(config)) == Some(config@),
        config_view(None) is None,
        answer@ == match answer {
            RegistryAnswer::Heredoc => RegistryView::Heredoc,
            RegistryAnswer::Rewrite(Some(candidate)) => RegistryView::Rewrite(Some(candidate@)),
            RegistryAnswer::Rewrite(None) => RegistryView::Rewrite(None),
        },
        json_view(Some(document)) == Some(document@),
        json_view(None) is None,
{
}

/// Formats, actions, replies and outcomes say what they hold.
pub proof fn law_decisions_say_what_they_hold(
    format: HookFormat,
    action: PayloadAction,
    reply: Reply,
    outcome: HookOutcome,
)
    ensures
        format@ == match format {
            HookFormat::VsCode { command } => FormatView::VsCode(command@),
            HookFormat::CopilotCli { command } => FormatView::CopilotCli(command@),
            HookFormat::PassThrough => FormatView::PassThrough,
        },
        action@ == match action {
            PayloadAction::Rewrite { cmd, rewritten, output } => ActionView::Rewrite {
                cmd: cmd@,
                rewritten: rewritten@,
                output: output@,
            },
            PayloadAction::Skip { reason, cmd } => ActionView::Skip { reason: reason@, cmd: cmd@ },
            PayloadAction::Ignore => ActionView::Ignore,
        },
        reply@ == match reply {
            Reply::Silent => ReplyView::Silent,
            Reply::Literal(s) => ReplyView::Literal(s@),
            Reply::Document(document) => ReplyView::Document(document@),
        },
        outcome@.reply == outcome.reply@,
        match outcome.audit {
            Some(entry) => outcome@.audit == Some(entry@),
            None => outcome@.audit is None,
        },
        match outcome.complaint {
            Some(complaint) => outcome@.complaint == Some(complaint@),
            None => outcome@.complaint is None,
        },
{
}

} // verus!
