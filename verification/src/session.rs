//! A hook call from its input to its outcome.
//!
//! A call runs as a small machine. Each state but the last names one question for the host: the
//! permission rules, the rewrite registry, the settings. [`begin_copilot`] and its siblings
//! read the input; [`advance`] takes an answer; in the end there is a [`HookOutcome`].
use vstd::prelude::*;

use crate::hook::{
    action_outcome, claude_action, command_of, config_in_force, config_view, copilot_cli_outcome,
    cursor_outcome, cursor_pass, detect_format, format_of, gemini_allow, gemini_command,
    gemini_outcome, gemini_payload_command, get_rewritten, handle_claude, handle_copilot_cli,
    handle_cursor, handle_gemini, handle_vscode, json_view, payload_command, print_allow,
    process_claude_payload, rewriting, tool_args_of, vscode_outcome, ConfigView, CopilotPermission,
    FormatView, HookError, HookFormat, HookOutcome, HooksConfig, OutcomeView, PermissionVerdict,
    RegistryAnswer, RegistryView, Reply, ReplyView,
};
use crate::json::{json_parse, json_read, parse_json, Json, JsonVal};
use crate::text::{strip_leading_bom, text_view, texts, trim, trimmed, without_bom};

verus! {

/// Whose hook is called.
#[derive(Debug, Clone, Copy, PartialEq, Eq, Structural)]
pub enum Agent {
    VsCode,
    CopilotCli,
    Gemini,
    PreToolUse,
    Cursor,
}

/// A hook call with the shell command that it is about.
#[derive(Debug, PartialEq, Eq)]
pub struct HookCall {
    pub agent: Agent,
    pub command: String,
    pub payload: Json,
}

/// What a hook call says.
#[verifier::ext_equal]
pub struct CallView {
    pub agent: Agent,
    pub command: Seq<char>,
    pub payload: JsonVal,
}

impl View for HookCall {
    type V = CallView;

    open spec fn view(&self) -> CallView {
        CallView { agent: self.agent, command: self.command@, payload: self.payload@ }
    }
}

impl CallView {
    /// The command is not empty, and it is the one that the agent's payload holds.
    pub open spec fn wf(self) -> bool {
        &&& self.command.len() > 0
        &&& match self.agent {
            Agent::CopilotCli => true,
            Agent::Gemini => gemini_command(self.payload) == Some(self.command),
            _ => command_of(self.payload) == Some(self.command),
        }
    }
}

/// Where a hook call stands: the question that it has for the host, or its outcome.
#[derive(Debug, PartialEq, Eq)]
pub enum HookState {
    /// What do the permission rules say of the command?
    AwaitVerdict { call: HookCall },
    /// Does the command hold a here-document?
    AwaitHeredoc { call: HookCall, verdict: PermissionVerdict },
    /// What are the settings?
    AwaitConfig { call: HookCall, verdict: PermissionVerdict },
    /// What does the registry propose in place of the command, given what is excluded and which
    /// prefixes it is to look through?
    AwaitRewrite {
        call: HookCall,
        verdict: PermissionVerdict,
        excluded: Vec<String>,
        transparent_prefixes: Vec<String>,
    },
    /// What are the settings now? They say what VS Code is told about permission.
    AwaitPermission { call: HookCall, verdict: PermissionVerdict, rewritten: String },
    /// Nothing is left to ask.
    Done { outcome: HookOutcome },
}

/// What a state says.
#[verifier::ext_equal]
pub enum StateView {
    AwaitVerdict { call: CallView },
    AwaitHeredoc { call: CallView, verdict: PermissionVerdict },
    AwaitConfig { call: CallView, verdict: PermissionVerdict },
    AwaitRewrite {
        call: CallView,
        verdict: PermissionVerdict,
        excluded: Seq<Seq<char>>,
        transparent_prefixes: Seq<Seq<char>>,
    },
    AwaitPermission { call: CallView, verdict: PermissionVerdict, rewritten: Seq<char> },
    Done { outcome: OutcomeView },
}

impl View for HookState {
    type V = StateView;

    open spec fn view(&self) -> StateView {
        match *self {
            HookState::AwaitVerdict { call } => StateView::AwaitVerdict { call: call@ },
            HookState::AwaitHeredoc { call, verdict } => StateView::AwaitHeredoc {
                call: call@,
                verdict,
            },
            HookState::AwaitConfig { call, verdict } => StateView::AwaitConfig {
                call: call@,
                verdict,
            },
            HookState::AwaitRewrite { call, verdict, excluded, transparent_prefixes } => {
                StateView::AwaitRewrite {
                    call: call@,
                    verdict,
                    excluded: texts(excluded@),
                    transparent_prefixes: texts(transparent_prefixes@),
                }
            },
            HookState::AwaitPermission { call, verdict, rewritten } => StateView::AwaitPermission {
                call: call@,
                verdict,
                rewritten: rewritten@,
            },
            HookState::Done { outcome } => StateView::Done { outcome: outcome@ },
        }
    }
}

impl StateView {
    /// Whether a question that is open concerns a well-formed call, one that is not denied.
    pub open spec fn wf(self) -> bool {
        match self {
            StateView::AwaitVerdict { call } => call.wf(),
            StateView::AwaitHeredoc { call, verdict } => {
                &&& call.wf()
                &&& call.agent != Agent::Gemini
                &&& verdict != PermissionVerdict::Deny
            },
            StateView::AwaitConfig { call, verdict } => {
                &&& call.wf()
                &&& verdict != PermissionVerdict::Deny
            },
            StateView::AwaitRewrite { call, verdict, excluded: _, transparent_prefixes: _ } => {
                &&& call.wf()
                &&& verdict != PermissionVerdict::Deny
            },
            StateView::AwaitPermission { call, verdict, rewritten } => {
                &&& call.wf()
                &&& call.agent == Agent::VsCode
                &&& verdict != PermissionVerdict::Deny
                &&& rewritten != call.command
            },
            StateView::Done { outcome: _ } => true,
        }
    }
}

/// An answer of the host.
#[derive(Debug, PartialEq, Eq)]
pub enum HookEvent {
    Verdict(PermissionVerdict),
    Heredoc(bool),
    Config(Option<HooksConfig>),
    Rewrite(Option<String>),
}

/// What an answer says.
#[verifier::ext_equal]
pub enum EventView {
    Verdict(PermissionVerdict),
    Heredoc(bool),
    Config(Option<ConfigView>),
    Rewrite(Option<Seq<char>>),
}

impl View for HookEvent {
    type V = EventView;

    open spec fn view(&self) -> EventView {
        match *self {
            HookEvent::Verdict(verdict) => EventView::Verdict(verdict),
            HookEvent::Heredoc(heredoc) => EventView::Heredoc(heredoc),
            HookEvent::Config(loaded) => EventView::Config(config_view(loaded)),
            HookEvent::Rewrite(candidate) => EventView::Rewrite(text_view(candidate)),
        }
    }
}

/// The outcome of a call for the given answers. Gemini asks for no here-document and takes a
/// proposal even where it repeats the command; only VS Code looks at the setting.
pub open spec fn outcome_of(
    call: CallView,
    verdict: PermissionVerdict,
    answer: RegistryView,
    setting: CopilotPermission,
) -> OutcomeView {
    let rewritten = rewriting(call.command, answer);
    match call.agent {
        Agent::VsCode => vscode_outcome(call.command, verdict, rewritten, setting),
        Agent::CopilotCli => copilot_cli_outcome(call.command, verdict, rewritten),
        Agent::Gemini => gemini_outcome(
            call.command,
            verdict,
            match answer {
                RegistryView::Heredoc => None,
                RegistryView::Rewrite(candidate) => candidate,
            },
        ),
        Agent::PreToolUse => action_outcome(claude_action(call.payload, verdict, rewritten)),
        Agent::Cursor => cursor_outcome(call.command, verdict, rewritten),
    }
}

/// The outcome of a call for the given answers.
pub fn settle(
    call: &HookCall,
    verdict: PermissionVerdict,
    answer: RegistryAnswer,
    setting: CopilotPermission,
) -> (res: HookOutcome)
    ensures
        res@ == outcome_of(call@, verdict, answer@, setting),
{
    let cmd = call.command.as_str();
    match call.agent {
        Agent::VsCode => handle_vscode(cmd, verdict, get_rewritten(cmd, answer), setting),
        Agent::CopilotCli => handle_copilot_cli(cmd, verdict, get_rewritten(cmd, answer)),
        Agent::Gemini => match answer {
            RegistryAnswer::Heredoc => handle_gemini(cmd, verdict, None),
            RegistryAnswer::Rewrite(candidate) => handle_gemini(cmd, verdict, candidate),
        },
        Agent::PreToolUse => handle_claude(
            process_claude_payload(&call.payload, verdict, get_rewritten(cmd, answer)),
        ),
        Agent::Cursor => handle_cursor(cmd, verdict, get_rewritten(cmd, answer)),
    }
}

/// The state after the verdict of the permission rules: a denied call is over at once.
pub open spec fn after_verdict(call: CallView, verdict: PermissionVerdict) -> StateView {
    if verdict == PermissionVerdict::Deny {
        StateView::Done {
            outcome: outcome_of(
                call,
                verdict,
                RegistryView::Rewrite(None),
                CopilotPermission::Omit,
            ),
        }
    } else if call.agent == Agent::Gemini {
        StateView::AwaitConfig { call, verdict }
    } else {
        StateView::AwaitHeredoc { call, verdict }
    }
}

/// The state once it is known whether the command holds a here-document.
pub open spec fn after_heredoc(
    call: CallView,
    verdict: PermissionVerdict,
    heredoc: bool,
) -> StateView {
    if heredoc {
        StateView::Done {
            outcome: outcome_of(call, verdict, RegistryView::Heredoc, CopilotPermission::Omit),
        }
    } else {
        StateView::AwaitConfig { call, verdict }
    }
}

/// The state once the settings are known: the registry is asked with what they exclude and with
/// their prefixes.
pub open spec fn after_config(
    call: CallView,
    verdict: PermissionVerdict,
    loaded: Option<ConfigView>,
) -> StateView {
    let config = config_in_force(loaded);
    StateView::AwaitRewrite {
        call,
        verdict,
        excluded: config.exclude_commands,
        transparent_prefixes: config.transparent_prefixes,
    }
}

/// The state after the registry's proposal: VS Code has one question more about a new command.
pub open spec fn after_rewrite(
    call: CallView,
    verdict: PermissionVerdict,
    candidate: Option<Seq<char>>,
) -> StateView {
    match candidate {
        Some(candidate) if call.agent == Agent::VsCode && candidate != call.command => {
            StateView::AwaitPermission { call, verdict, rewritten: candidate }
        },
        _ => StateView::Done {
            outcome: outcome_of(
                call,
                verdict,
                RegistryView::Rewrite(candidate),
                CopilotPermission::Omit,
            ),
        },
    }
}

/// The state after an answer. An answer to another question changes nothing.
pub open spec fn next_state(state: StateView, event: EventView) -> StateView {
    match (state, event) {
        (StateView::AwaitVerdict { call }, EventView::Verdict(verdict)) => after_verdict(
            call,
            verdict,
        ),
        (StateView::AwaitHeredoc { call, verdict }, EventView::Heredoc(heredoc)) => after_heredoc(
            call,
            verdict,
            heredoc,
        ),
        (StateView::AwaitConfig { call, verdict }, EventView::Config(loaded)) => after_config(
            call,
            verdict,
            loaded,
        ),
        (
            StateView::AwaitRewrite { call, verdict, excluded: _, transparent_prefixes: _ },
            EventView::Rewrite(candidate),
        ) => after_rewrite(call, verdict, candidate),
        (
            StateView::AwaitPermission { call, verdict, rewritten },
            EventView::Config(loaded),
        ) => StateView::Done {
            outcome: outcome_of(
                call,
                verdict,
                RegistryView::Rewrite(Some(rewritten)),
                config_in_force(loaded).copilot_permission,
            ),
        },
        _ => state,
    }
}

/// Takes an answer of the host.
pub fn advance(state: HookState, event: HookEvent) -> (res: HookState)
    ensures
        res@ == next_state(state@, event@),
{
    match (state, event) {
        (HookState::AwaitVerdict { call }, HookEvent::Verdict(verdict)) => {
            if verdict == PermissionVerdict::Deny {
                let outcome = settle(
                    &call,
                    verdict,
                    RegistryAnswer::Rewrite(None),
                    CopilotPermission::Omit,
                );
                HookState::Done { outcome }
            } else if call.agent == Agent::Gemini {
                HookState::AwaitConfig { call, verdict }
            } else {
                HookState::AwaitHeredoc { call, verdict }
            }
        },
        (HookState::AwaitHeredoc { call, verdict }, HookEvent::Heredoc(heredoc)) => {
            if heredoc {
                let outcome = settle(
                    &call,
                    verdict,
                    RegistryAnswer::Heredoc,
                    CopilotPermission::Omit,
                );
                HookState::Done { outcome }
            } else {
                HookState::AwaitConfig { call, verdict }
            }
        },
        (HookState::AwaitConfig { call, verdict }, HookEvent::Config(loaded)) => {
            let config = HooksConfig::or_default(loaded);
            HookState::AwaitRewrite {
                call,
                verdict,
                excluded: config.exclude_commands,
                transparent_prefixes: config.transparent_prefixes,
            }
        },
        (
            HookState::AwaitRewrite { call, verdict, excluded: _, transparent_prefixes: _ },
            HookEvent::Rewrite(candidate),
        ) => {
            if call.agent == Agent::VsCode {
                let answer = RegistryAnswer::Rewrite(candidate);
                match get_rewritten(call.command.as_str(), answer) {
                    Some(rewritten) => HookState::AwaitPermission { call, verdict, rewritten },
                    None => HookState::Done {
                        outcome: settle(
                            &call,
                            verdict,
                            RegistryAnswer::Rewrite(None),
                            CopilotPermission::Omit,
                        ),
                    },
                }
            } else {
                let outcome = settle(
                    &call,
                    verdict,
                    RegistryAnswer::Rewrite(candidate),
                    CopilotPermission::Omit,
                );
                HookState::Done { outcome }
            }
        },
        (
            HookState::AwaitPermission { call, verdict, rewritten },
            HookEvent::Config(loaded),
        ) => {
            let outcome = settle(
                &call,
                verdict,
                RegistryAnswer::Rewrite(Some(rewritten)),
                HooksConfig::or_default(loaded).copilot_permission,
            );
            HookState::Done { outcome }
        },
        (state, _) => state,
    }
}

/// The first state of a call, or an outcome at once where there is no command to ask about.
pub open spec fn opened(
    agent: Agent,
    payload: JsonVal,
    command: Option<Seq<char>>,
    otherwise: ReplyView,
) -> StateView {
    match command {
        Some(command) => StateView::AwaitVerdict { call: CallView { agent, command, payload } },
        None => StateView::Done { outcome: OutcomeView::unlogged(otherwise) },
    }
}

// Copilot: VS Code and the CLI.

/// The first state of a Copilot call in a given format.
pub open spec fn copilot_opened(payload: JsonVal, format: FormatView) -> StateView {
    match format {
        FormatView::VsCode(command) => opened(
            Agent::VsCode,
            payload,
            Some(command),
            ReplyView::Silent,
        ),
        FormatView::CopilotCli(command) => opened(
            Agent::CopilotCli,
            payload,
            Some(command),
            ReplyView::Silent,
        ),
        FormatView::PassThrough => opened(Agent::VsCode, payload, None, ReplyView::Silent),
    }
}

/// Opens a Copilot call in a given format.
pub fn open_copilot(payload: Json, format: HookFormat) -> (res: HookState)
    ensures
        res@ == copilot_opened(payload@, format@),
{
    match format {
        HookFormat::VsCode { command } => HookState::AwaitVerdict {
            call: HookCall { agent: Agent::VsCode, command, payload },
        },
        HookFormat::CopilotCli { command } => HookState::AwaitVerdict {
            call: HookCall { agent: Agent::CopilotCli, command, payload },
        },
        HookFormat::PassThrough => HookState::Done {
            outcome: HookOutcome::unlogged(Reply::Silent),
        },
    }
}

/// What the input is read as, for the agents that ignore blank input: nothing, a document, or
/// a complaint.
pub open spec fn input_read(input: Seq<char>) -> Option<Result<JsonVal, Seq<char>>> {
    let text = trimmed(input);
    if text.len() == 0 {
        None
    } else {
        Some(json_parse(text))
    }
}

/// The end of a call about which there is nothing to say.
pub open spec fn silent_end() -> StateView {
    StateView::Done { outcome: OutcomeView::unlogged(ReplyView::Silent) }
}

/// The end of a call whose input cannot be read.
pub open spec fn complaint_end(complaint: Seq<char>) -> StateView {
    StateView::Done {
        outcome: OutcomeView::complaining(
            "[rtk hook] Failed to parse JSON input: "@ + complaint,
        ),
    }
}

/// The first state of a Copilot call, given what its input is read as.
pub open spec fn copilot_start(read: Option<Result<JsonVal, Seq<char>>>) -> StateView {
    match read {
        None => silent_end(),
        Some(Err(complaint)) => complaint_end(complaint),
        Some(Ok(payload)) => copilot_opened(
            payload,
            format_of(payload, tool_args_of(payload)),
        ),
    }
}

/// Reads the input of a Copilot call.
pub fn begin_copilot(input: &str) -> (res: HookState)
    ensures
        res@ == copilot_start(input_read(input@)),
        res@.wf(),
{
    let text = trim(input);
    if text.is_empty() {
        return HookState::Done { outcome: HookOutcome::unlogged(Reply::Silent) };
    }
    match parse_json(text) {
        Ok(payload) => {
            let format = detect_format(&payload);
            open_copilot(payload, format)
        },
        Err(complaint) => HookState::Done { outcome: HookOutcome::bad_input(complaint.as_str()) },
    }
}

// Gemini.

/// The first state of a Gemini call.
pub open spec fn gemini_opened(payload: JsonVal) -> StateView {
    opened(
        Agent::Gemini,
        payload,
        gemini_command(payload),
        gemini_allow(),
    )
}

/// Opens a Gemini call.
pub fn open_gemini(payload: Json) -> (res: HookState)
    ensures
        res@ == gemini_opened(payload@),
{
    let command = match gemini_payload_command(&payload) {
        Some(command) => command.to_owned(),
        None => return HookState::Done { outcome: HookOutcome::unlogged(print_allow()) },
    };
    HookState::AwaitVerdict { call: HookCall { agent: Agent::Gemini, command, payload } }
}

/// Reads the input of a Gemini call, which fails on unreadable input.
pub fn begin_gemini(input: &str) -> (res: Result<HookState, HookError>)
    ensures
        match json_parse(input@) {
            Ok(payload) => res matches Ok(state) && state@ == gemini_opened(payload)
                && state@.wf(),
            Err(complaint) => res matches Err(HookError::BadJson(message)) && message@
                == complaint,
        },
{
    match parse_json(input) {
        Ok(payload) => Ok(open_gemini(payload)),
        Err(complaint) => Err(HookError::BadJson(complaint)),
    }
}

// The native PreToolUse hook.

/// The first state of a native PreToolUse call.
pub open spec fn claude_opened(payload: JsonVal) -> StateView {
    opened(Agent::PreToolUse, payload, command_of(payload), ReplyView::Silent)
}

/// Opens a native PreToolUse call.
pub fn open_claude(payload: Json) -> (res: HookState)
    ensures
        res@ == claude_opened(payload@),
{
    let command = match payload_command(&payload) {
        Some(command) => command.to_owned(),
        None => return HookState::Done { outcome: HookOutcome::unlogged(Reply::Silent) },
    };
    HookState::AwaitVerdict { call: HookCall { agent: Agent::PreToolUse, command, payload } }
}

/// The first state of a native PreToolUse call, given what its input is read as.
pub open spec fn claude_start(read: Option<Result<JsonVal, Seq<char>>>) -> StateView {
    match read {
        None => silent_end(),
        Some(Err(complaint)) => complaint_end(complaint),
        Some(Ok(payload)) => claude_opened(payload),
    }
}

/// Reads the input of a native PreToolUse call.
pub fn begin_claude(input: &str) -> (res: HookState)
    ensures
        res@ == claude_start(input_read(input@)),
        res@.wf(),
{
    let text = trim(input);
    if text.is_empty() {
        return HookState::Done { outcome: HookOutcome::unlogged(Reply::Silent) };
    }
    match parse_json(text) {
        Ok(payload) => open_claude(payload),
        Err(complaint) => HookState::Done { outcome: HookOutcome::bad_input(complaint.as_str()) },
    }
}

// Cursor.

/// The first state of a Cursor call, given what was read of its input.
pub open spec fn cursor_opened(payload: Option<JsonVal>) -> StateView {
    match payload {
        Some(payload) => opened(
            Agent::Cursor,
            payload,
            command_of(payload),
            cursor_pass(),
        ),
        None => StateView::Done {
            outcome: OutcomeView::unlogged(cursor_pass()),
        },
    }
}

/// Opens a Cursor call, given what was read of its input.
pub fn open_cursor(payload: Option<Json>) -> (res: HookState)
    ensures
        res@ == cursor_opened(json_view(payload)),
{
    let payload = match payload {
        Some(payload) => payload,
        None => return HookState::Done { outcome: HookOutcome::unlogged(Reply::Literal("{}")) },
    };
    let command = match payload_command(&payload) {
        Some(command) => command.to_owned(),
        None => return HookState::Done { outcome: HookOutcome::unlogged(Reply::Literal("{}")) },
    };
    HookState::AwaitVerdict { call: HookCall { agent: Agent::Cursor, command, payload } }
}

/// What Cursor's input is read as: byte order marks and white space aside, a document.
pub open spec fn cursor_payload(input: Seq<char>) -> Option<JsonVal> {
    let text = trimmed(without_bom(input));
    if text.len() == 0 {
        None
    } else {
        json_read(text)
    }
}

/// Reads the input of a Cursor call.
pub fn begin_cursor(input: &str) -> (res: HookState)
    ensures
        res@ == cursor_opened(cursor_payload(input@)),
        res@.wf(),
{
    let text = trim(strip_leading_bom(input));
    if text.is_empty() {
        return open_cursor(None);
    }
    match parse_json(text) {
        Ok(payload) => open_cursor(Some(payload)),
        Err(_) => open_cursor(None),
    }
}

// What the values of this module say.

/// Calls and events say what they hold.
pub proof fn law_calls_and_events_say_what_they_hold(call: HookCall, event: HookEvent)
    ensures
        call@.agent == call.agent,
        call@.command == call.command@,
        call@.payload == call.payload@,
        event@ == match event {
            HookEvent::Verdict(verdict) => EventView::Verdict(verdict),
            HookEvent::Heredoc(heredoc) => EventView::Heredoc(heredoc),
            HookEvent::Config(Some(config)) => EventView::Config(Some(config@)),
            HookEvent::Config(None) => EventView::Config(None),
            HookEvent::Rewrite(Some(candidate)) => EventView::Rewrite(Some(candidate@)),
            HookEvent::Rewrite(None) => EventView::Rewrite(None),
        },
{
}

/// States say what they hold.
pub proof fn law_states_say_what_they_hold(state: HookState)
    ensures
        match state {
            HookState::AwaitVerdict { call } => state@ == (StateView::AwaitVerdict {
                call: call@,
            }),
            HookState::AwaitHeredoc { call, verdict } => state@ == (StateView::AwaitHeredoc {
                call: call@,
                verdict,
            }),
            HookState::AwaitConfig { call, verdict } => state@ == (StateView::AwaitConfig {
                call: call@,
                verdict,
            }),
            HookState::AwaitRewrite { call, verdict, excluded, transparent_prefixes } => state@
                == (StateView::AwaitRewrite {
                call: call@,
                verdict,
                excluded: texts(excluded@),
                transparent_prefixes: texts(transparent_prefixes@),
            }),
            HookState::AwaitPermission { call, verdict, rewritten } => state@
                == (StateView::AwaitPermission { call: call@, verdict, rewritten: rewritten@ }),
            HookState::Done { outcome } => state@ == (StateView::Done { outcome: outcome@ }),
        },
{
}

} // verus!
