//! The dialects of the agents, key by key: which calls a hook takes up, and what it answers.
//!
//! Documents are written out here as the agents see them.
use vstd::prelude::*;

use crate::audit::AuditView;
use crate::hook::{
    action_outcome, claude_action, config_in_force, copilot_cli_outcome, cursor_outcome, format_of, gemini_outcome,
    is_single, parts_commands, tool_args_of, vscode_outcome, ActionView, ConfigView, CopilotPermission, FormatView,
    OutcomeView, PermissionVerdict, RegistryView, ReplyView,
};
use crate::json::{json_parse, json_text, JsonVal};
use crate::laws::{answered, lemma_keys, Answers};
use crate::oneshot::{claude_reply, cursor_reply, document_line, vscode_reply};
use crate::session::{
    claude_opened, claude_start, copilot_opened, copilot_start, cursor_opened, cursor_payload,
    gemini_opened, input_read, next_state, outcome_of, Agent, CallView, EventView, StateView,
};
use crate::text::{
    law_leading_marks_vanish, law_trimmed_empty_iff_blank, law_trimming_takes_the_ends,
    white_space, without_bom, words,
};

verus! {

// Which calls are taken up.

proof fn lemma_separators(command: Seq<char>)
    ensures
        is_single(command) <==> !command.contains('&') && !command.contains('|')
            && !command.contains(';') && !command.contains('\n'),
{
    if is_single(command) {
        assert forall|c: char| #[trigger] command.contains(c) implies !parts_commands(c) by {
            let i = command.index_of(c);
            assert(command[i] == c);
        }
        assert(parts_commands('&') && parts_commands('|'));
        assert(parts_commands(';') && parts_commands('\n'));
    } else {
        let i = choose|i: int| 0 <= i < command.len() && parts_commands(#[trigger] command[i]);
        assert(command.contains(command[i]));
    }
}

/// The native PreToolUse hook takes up a call if the text at `tool_input.command` is there and
/// is not empty, whatever else the payload holds: the rules are then asked about that very text.
/// Any other call ends in silence.
pub proof fn law_pre_tool_use_takes_up_commands(payload: JsonVal)
    ensures
        claude_start(Some(Ok(payload))) == claude_opened(payload),
        ({
            let silence = StateView::Done {
                outcome: OutcomeView { audit: None, reply: ReplyView::Silent, complaint: None },
            };
            match payload.member("tool_input"@) {
                Some(tool_input) => match tool_input.member_text("command"@) {
                    Some(command) => claude_opened(payload) == if command.len() > 0 {
                        StateView::AwaitVerdict {
                            call: CallView { agent: Agent::PreToolUse, command, payload },
                        }
                    } else {
                        silence
                    },
                    None => claude_opened(payload) == silence,
                },
                None => claude_opened(payload) == silence,
            }
        }),
{
}

/// Cursor's hook takes up the same calls, and answers any other with an empty object.
pub proof fn law_cursor_takes_up_commands(payload: JsonVal)
    ensures
        ({
            let pass = StateView::Done {
                outcome: OutcomeView {
                    audit: None,
                    reply: ReplyView::Literal("{}"@),
                    complaint: None,
                },
            };
            &&& cursor_opened(None) == pass
            &&& match payload.member("tool_input"@) {
                Some(tool_input) => match tool_input.member_text("command"@) {
                    Some(command) => cursor_opened(Some(payload)) == if command.len() > 0 {
                        StateView::AwaitVerdict {
                            call: CallView { agent: Agent::Cursor, command, payload },
                        }
                    } else {
                        pass
                    },
                    None => cursor_opened(Some(payload)) == pass,
                },
                None => cursor_opened(Some(payload)) == pass,
            }
        }),
{
}

/// Gemini's hook takes up the calls of `run_shell_command` with a command, and allows any other
/// call at once.
pub proof fn law_gemini_takes_up_shell_commands(payload: JsonVal)
    ensures
        ({
            let allow = StateView::Done {
                outcome: OutcomeView {
                    audit: None,
                    reply: ReplyView::Literal("{\"decision\":\"allow\"}"@),
                    complaint: None,
                },
            };
            match payload.member("tool_input"@) {
                Some(tool_input) => match tool_input.member_text("command"@) {
                    Some(command) => gemini_opened(payload) == if command.len() > 0
                        && payload.member_text("tool_name"@) == Some("run_shell_command"@) {
                        StateView::AwaitVerdict {
                            call: CallView { agent: Agent::Gemini, command, payload },
                        }
                    } else {
                        allow
                    },
                    None => gemini_opened(payload) == allow,
                },
                None => gemini_opened(payload) == allow,
            }
        }),
{
}

/// Copilot's hook takes up a call of VS Code that has one of the four names of the shell tool
/// and a command, unless this is a single command whose first word is `rtk`.
pub proof fn law_copilot_takes_up_shell_commands(
    payload: JsonVal,
    tool: Seq<char>,
    tool_input: JsonVal,
    command: Seq<char>,
)
    requires
        payload.member_text("tool_name"@) == Some(tool),
        ({
            ||| tool == "runTerminalCommand"@
            ||| tool == "run_in_terminal"@
            ||| tool == "Bash"@
            ||| tool == "bash"@
        }),
        payload.member("tool_input"@) == Some(tool_input),
        tool_input.member_text("command"@) == Some(command),
        command.len() > 0,
        ({
            ||| words(command).len() == 0
            ||| words(command)[0] != "rtk"@
            ||| command.contains('&')
            ||| command.contains('|')
            ||| command.contains(';')
            ||| command.contains('\n')
        }),
    ensures
        forall|tool_args: Option<JsonVal>| #[trigger]
            format_of(payload, tool_args) == FormatView::VsCode(command),
        copilot_start(Some(Ok(payload))) == (StateView::AwaitVerdict {
            call: CallView { agent: Agent::VsCode, command, payload },
        }),
{
    lemma_separators(command);
}

/// Copilot's hook takes up a call of Copilot CLI whose tool is `bash`, if the document in the
/// text under `toolArgs` has a command, unless this is a single command whose first word is
/// `rtk`.
pub proof fn law_copilot_takes_up_cli_commands(
    payload: JsonVal,
    text: Seq<char>,
    tool_args: JsonVal,
    command: Seq<char>,
)
    requires
        payload.member_text("tool_name"@) is None,
        payload.member_text("toolName"@) == Some("bash"@),
        payload.member_text("toolArgs"@) == Some(text),
        json_parse(text) == Ok::<JsonVal, Seq<char>>(tool_args),
        tool_args.member_text("command"@) == Some(command),
        command.len() > 0,
        ({
            ||| words(command).len() == 0
            ||| words(command)[0] != "rtk"@
            ||| command.contains('&')
            ||| command.contains('|')
            ||| command.contains(';')
            ||| command.contains('\n')
        }),
    ensures
        format_of(payload, Some(tool_args)) == FormatView::CopilotCli(command),
        copilot_start(Some(Ok(payload))) == (StateView::AwaitVerdict {
            call: CallView { agent: Agent::CopilotCli, command, payload },
        }),
{
    lemma_separators(command);
}

/// Copilot's hook leaves a single command alone whose first word is `rtk`, in either format.
pub proof fn law_copilot_leaves_rtk_alone(
    payload: JsonVal,
    args: Option<JsonVal>,
    command: Seq<char>,
)
    requires
        words(command).len() > 0,
        words(command)[0] == "rtk"@,
        !command.contains('&'),
        !command.contains('|'),
        !command.contains(';'),
        !command.contains('\n'),
        match payload.member_text("tool_name"@) {
            Some(_) => {
                &&& payload.member("tool_input"@) matches Some(tool_input)
                &&& tool_input.member_text("command"@) == Some(command)
            },
            None => {
                &&& args matches Some(args)
                &&& args.member_text("command"@) == Some(command)
            },
        },
    ensures
        format_of(payload, args) == FormatView::PassThrough,
{
    lemma_separators(command);
}

/// Copilot's hook leaves any other call alone: one of another tool, one without a command, and
/// one whose `toolArgs` cannot be read.
pub proof fn law_copilot_leaves_other_calls_alone(payload: JsonVal, args: Option<JsonVal>)
    requires
        match payload.member_text("tool_name"@) {
            Some(tool) => {
                ||| {
                    &&& tool != "runTerminalCommand"@
                    &&& tool != "run_in_terminal"@
                    &&& tool != "Bash"@
                    &&& tool != "bash"@
                }
                ||| match payload.member("tool_input"@) {
                    Some(tool_input) => match tool_input.member_text("command"@) {
                        Some(command) => command.len() == 0,
                        None => true,
                    },
                    None => true,
                }
            },
            None => {
                ||| payload.member_text("toolName"@) != Some("bash"@)
                ||| match args {
                    Some(args) => match args.member_text("command"@) {
                        Some(command) => command.len() == 0,
                        None => true,
                    },
                    None => true,
                }
            },
        },
    ensures
        format_of(payload, args) == FormatView::PassThrough,
{
}

/// The arguments of a Copilot CLI call are what is read from the text under `toolArgs`; without
/// such a text, or if it cannot be read, there are none.
pub proof fn law_tool_args_are_read(payload: JsonVal)
    ensures
        match payload.member_text("toolArgs"@) {
            Some(text) => match json_parse(text) {
                Ok(args) => tool_args_of(payload) == Some(args),
                Err(_) => tool_args_of(payload) is None,
            },
            None => tool_args_of(payload) is None,
        },
{
}

/// A Copilot call is opened as its format says, and a call that is left alone ends in silence.
pub proof fn law_copilot_opens_by_format(payload: JsonVal, command: Seq<char>)
    ensures
        copilot_start(Some(Ok(payload))) == copilot_opened(
            payload,
            format_of(payload, tool_args_of(payload)),
        ),
        copilot_opened(payload, FormatView::VsCode(command)) == (StateView::AwaitVerdict {
            call: CallView { agent: Agent::VsCode, command, payload },
        }),
        copilot_opened(payload, FormatView::CopilotCli(command)) == (StateView::AwaitVerdict {
            call: CallView { agent: Agent::CopilotCli, command, payload },
        }),
        copilot_opened(payload, FormatView::PassThrough) == (StateView::Done {
            outcome: OutcomeView { audit: None, reply: ReplyView::Silent, complaint: None },
        }),
{
}

// What is answered.

/// The whole of what VS Code's hook does with a command. A denied one is logged; one without a
/// new command is passed over; a new command is logged and handed over, with the permission that
/// an allow rule or else the setting calls for.
pub proof fn law_vscode_answers(
    cmd: Seq<char>,
    verdict: PermissionVerdict,
    rewritten: Option<Seq<char>>,
    setting: CopilotPermission,
)
    ensures
        ({
            let outcome = vscode_outcome(cmd, verdict, rewritten, setting);
            &&& outcome.complaint is None
            &&& match rewritten {
                Some(new) if verdict != PermissionVerdict::Deny => {
                    let output = map![
                        "hookEventName"@ => JsonVal::Text("PreToolUse"@),
                        "permissionDecisionReason"@ => JsonVal::Text("RTK auto-rewrite"@),
                        "updatedInput"@ => JsonVal::Object(
                            map!["command"@ => JsonVal::Text(new)],
                        )
                    ];
                    let told = if verdict == PermissionVerdict::Allow || setting
                        == CopilotPermission::Allow {
                        output.insert("permissionDecision"@, JsonVal::Text("allow"@))
                    } else if setting == CopilotPermission::Ask {
                        output.insert("permissionDecision"@, JsonVal::Text("ask"@))
                    } else {
                        output
                    };
                    &&& outcome.audit == Some(
                        AuditView { action: "rewrite"@, original: cmd, rewritten: new },
                    )
                    &&& outcome.reply == ReplyView::Document(
                        JsonVal::Object(map!["hookSpecificOutput"@ => JsonVal::Object(told)]),
                    )
                },
                _ => {
                    &&& outcome.reply == ReplyView::Silent
                    &&& outcome.audit == if verdict == PermissionVerdict::Deny {
                        Some(AuditView { action: "deny"@, original: cmd, rewritten: ""@ })
                    } else {
                        None
                    }
                },
            }
        }),
{
}

/// The whole of what Copilot CLI's hook does with a command. A new command is logged, and the
/// old one is refused with the new one as a suggestion.
pub proof fn law_copilot_cli_answers(
    cmd: Seq<char>,
    verdict: PermissionVerdict,
    rewritten: Option<Seq<char>>,
)
    ensures
        ({
            let outcome = copilot_cli_outcome(cmd, verdict, rewritten);
            &&& outcome.complaint is None
            &&& match rewritten {
                Some(new) if verdict != PermissionVerdict::Deny => {
                    &&& outcome.audit == Some(
                        AuditView { action: "rewrite"@, original: cmd, rewritten: new },
                    )
                    &&& outcome.reply == ReplyView::Document(
                        JsonVal::Object(
                            map![
                                "permissionDecision"@ => JsonVal::Text("deny"@),
                                "permissionDecisionReason"@ => JsonVal::Text(
                                    "Token savings: use `"@ + new
                                        + "` instead (rtk saves 60-90% tokens)"@,
                                )
                            ],
                        ),
                    )
                },
                _ => {
                    &&& outcome.reply == ReplyView::Silent
                    &&& outcome.audit == if verdict == PermissionVerdict::Deny {
                        Some(AuditView { action: "deny"@, original: cmd, rewritten: ""@ })
                    } else {
                        None
                    }
                },
            }
        }),
{
}

/// The whole of what Gemini's hook does with a command. A denied one is blocked; any other is
/// allowed, with what the registry proposes in its place, if anything. Only a proposal is
/// logged.
pub proof fn law_gemini_answers(
    cmd: Seq<char>,
    verdict: PermissionVerdict,
    candidate: Option<Seq<char>>,
)
    ensures
        ({
            let outcome = gemini_outcome(cmd, verdict, candidate);
            &&& outcome.complaint is None
            &&& match candidate {
                Some(new) if verdict != PermissionVerdict::Deny => {
                    &&& outcome.audit == Some(
                        AuditView { action: "rewrite"@, original: cmd, rewritten: new },
                    )
                    &&& outcome.reply == ReplyView::Document(
                        JsonVal::Object(
                            map![
                                "decision"@ => JsonVal::Text("allow"@),
                                "hookSpecificOutput"@ => JsonVal::Object(
                                    map![
                                        "tool_input"@ => JsonVal::Object(
                                            map!["command"@ => JsonVal::Text(new)],
                                        )
                                    ],
                                )
                            ],
                        ),
                    )
                },
                _ => {
                    &&& outcome.audit is None
                    &&& outcome.reply == ReplyView::Literal(
                        if verdict == PermissionVerdict::Deny {
                            "{\"decision\":\"deny\",\"reason\":\"Blocked by RTK permission rule\"}"@
                        } else {
                            "{\"decision\":\"allow\"}"@
                        },
                    )
                },
            }
        }),
{
}

/// The whole of what Cursor's hook does with a command. A new command is logged and handed over
/// as allowed; of any other nothing is said, and a denied one is logged.
pub proof fn law_cursor_answers(
    cmd: Seq<char>,
    verdict: PermissionVerdict,
    rewritten: Option<Seq<char>>,
)
    ensures
        ({
            let outcome = cursor_outcome(cmd, verdict, rewritten);
            &&& outcome.complaint is None
            &&& match rewritten {
                Some(new) if verdict != PermissionVerdict::Deny => {
                    &&& outcome.audit == Some(
                        AuditView { action: "rewrite"@, original: cmd, rewritten: new },
                    )
                    &&& outcome.reply == ReplyView::Document(
                        JsonVal::Object(
                            map![
                                "continue"@ => JsonVal::Bool(true),
                                "permission"@ => JsonVal::Text("allow"@),
                                "updated_input"@ => JsonVal::Object(
                                    map!["command"@ => JsonVal::Text(new)],
                                )
                            ],
                        ),
                    )
                },
                _ => {
                    &&& outcome.reply == ReplyView::Literal("{}"@)
                    &&& outcome.audit == if verdict == PermissionVerdict::Deny {
                        Some(AuditView { action: "deny"@, original: cmd, rewritten: ""@ })
                    } else {
                        None
                    }
                },
            }
        }),
{
}

/// The whole of what the native PreToolUse hook does with a call whose tool input is an object
/// with a command. A new command is handed back in that very object, all its other members kept;
/// `permissionDecision` is there only for an allow rule.
pub proof fn law_pre_tool_use_acts(
    payload: JsonVal,
    input: Map<Seq<char>, JsonVal>,
    cmd: Seq<char>,
    verdict: PermissionVerdict,
    rewritten: Option<Seq<char>>,
)
    requires
        payload.member("tool_input"@) == Some(JsonVal::Object(input)),
        input.contains_key("command"@),
        input["command"@] == JsonVal::Text(cmd),
        cmd.len() > 0,
    ensures
        claude_action(payload, verdict, rewritten) == match rewritten {
            Some(new) if verdict != PermissionVerdict::Deny => {
                let output = map![
                    "hookEventName"@ => JsonVal::Text("PreToolUse"@),
                    "permissionDecisionReason"@ => JsonVal::Text("RTK auto-rewrite"@),
                    "updatedInput"@ => JsonVal::Object(
                        input.insert("command"@, JsonVal::Text(new)),
                    )
                ];
                let told = if verdict == PermissionVerdict::Allow {
                    output.insert("permissionDecision"@, JsonVal::Text("allow"@))
                } else {
                    output
                };
                ActionView::Rewrite {
                    cmd,
                    rewritten: new,
                    output: JsonVal::Object(
                        map!["hookSpecificOutput"@ => JsonVal::Object(told)],
                    ),
                }
            },
            _ => ActionView::Skip {
                reason: if verdict == PermissionVerdict::Deny {
                    "skip:deny_rule"@
                } else {
                    "skip:no_match"@
                },
                cmd,
            },
        },
{
}

/// A call without a command is ignored by the native PreToolUse hook, whatever the answers.
pub proof fn law_pre_tool_use_ignores_other_calls(
    payload: JsonVal,
    verdict: PermissionVerdict,
    rewritten: Option<Seq<char>>,
)
    requires
        match payload.member("tool_input"@) {
            Some(tool_input) => match tool_input.member_text("command"@) {
                Some(command) => command.len() == 0,
                None => true,
            },
            None => true,
        },
    ensures
        claude_action(payload, verdict, rewritten) == ActionView::Ignore,
{
}

/// What the native PreToolUse hook logs and answers for each of its actions.
pub proof fn law_pre_tool_use_actions_are_answered(action: ActionView)
    ensures
        action_outcome(action) == match action {
            ActionView::Rewrite { cmd, rewritten, output } => OutcomeView {
                audit: Some(AuditView { action: "rewrite"@, original: cmd, rewritten }),
                reply: ReplyView::Document(output),
                complaint: None,
            },
            ActionView::Skip { reason, cmd } => OutcomeView {
                audit: Some(AuditView { action: reason, original: cmd, rewritten: ""@ }),
                reply: ReplyView::Silent,
                complaint: None,
            },
            ActionView::Ignore => OutcomeView {
                audit: None,
                reply: ReplyView::Silent,
                complaint: None,
            },
        },
{
}

/// A proposal of the registry is a new command for every agent, unless it repeats the command:
/// then it is none, except for Gemini. A here-document has no new command. The setting matters
/// to VS Code alone.
pub proof fn law_each_agent_is_answered(
    call: CallView,
    verdict: PermissionVerdict,
    answer: RegistryView,
    setting: CopilotPermission,
)
    ensures
        ({
            let proposed = match answer {
                RegistryView::Rewrite(candidate) => candidate,
                RegistryView::Heredoc => None,
            };
            let new = if proposed == Some(call.command) {
                None
            } else {
                proposed
            };
            outcome_of(call, verdict, answer, setting) == match call.agent {
                Agent::VsCode => vscode_outcome(call.command, verdict, new, setting),
                Agent::CopilotCli => copilot_cli_outcome(call.command, verdict, new),
                Agent::Gemini => gemini_outcome(call.command, verdict, proposed),
                Agent::PreToolUse => action_outcome(claude_action(call.payload, verdict, new)),
                Agent::Cursor => cursor_outcome(call.command, verdict, new),
            }
        }),
{
}

// What the host is asked, in which order.

/// The host is asked for the verdict, whether there is a here-document, for the settings, and
/// for the registry's proposal, always about the same call; Gemini's hook leaves out the
/// here-document, and VS Code's asks for the settings again once there is a new command. A
/// denied command and a here-document end the call.
pub proof fn law_questions_come_in_order(
    call: CallView,
    verdict: PermissionVerdict,
    candidate: Option<Seq<char>>,
    excluded: Seq<Seq<char>>,
    transparent_prefixes: Seq<Seq<char>>,
)
    ensures
        next_state(
            StateView::AwaitVerdict { call },
            EventView::Verdict(verdict),
        ) == if verdict == PermissionVerdict::Deny {
            StateView::Done {
                outcome: outcome_of(
                    call,
                    PermissionVerdict::Deny,
                    RegistryView::Rewrite(None),
                    CopilotPermission::Omit,
                ),
            }
        } else if call.agent == Agent::Gemini {
            StateView::AwaitConfig { call, verdict }
        } else {
            StateView::AwaitHeredoc { call, verdict }
        },
        next_state(
            StateView::AwaitHeredoc { call, verdict },
            EventView::Heredoc(false),
        ) == (StateView::AwaitConfig { call, verdict }),
        next_state(
            StateView::AwaitHeredoc { call, verdict },
            EventView::Heredoc(true),
        ) == (StateView::Done {
            outcome: outcome_of(call, verdict, RegistryView::Heredoc, CopilotPermission::Omit),
        }),
        ({
            let next = next_state(
                StateView::AwaitRewrite { call, verdict, excluded, transparent_prefixes },
                EventView::Rewrite(candidate),
            );
            if call.agent == Agent::VsCode && candidate is Some && candidate != Some(
                call.command,
            ) {
                next == (StateView::AwaitPermission { call, verdict, rewritten: candidate->0 })
            } else {
                next == (StateView::Done {
                    outcome: outcome_of(
                        call,
                        verdict,
                        RegistryView::Rewrite(candidate),
                        CopilotPermission::Omit,
                    ),
                })
            }
        }),
{
}

/// The permission setting that counts for VS Code is the one that is loaded last; without
/// settings nothing is said about permission.
pub proof fn law_the_last_settings_decide_on_permission(
    call: CallView,
    verdict: PermissionVerdict,
    rewritten: Seq<char>,
    loaded: Option<ConfigView>,
)
    ensures
        next_state(
            StateView::AwaitPermission { call, verdict, rewritten },
            EventView::Config(loaded),
        ) == (StateView::Done {
            outcome: outcome_of(
                call,
                verdict,
                RegistryView::Rewrite(Some(rewritten)),
                match loaded {
                    Some(config) => config.copilot_permission,
                    None => CopilotPermission::Omit,
                },
            ),
        }),
        config_in_force(loaded) == match loaded {
            Some(config) => config,
            None => ConfigView {
                exclude_commands: seq![],
                transparent_prefixes: seq![],
                copilot_permission: CopilotPermission::Omit,
            },
        },
{
}

/// An answer to another question than the one that is open changes nothing.
pub proof fn law_other_answers_change_nothing(state: StateView, event: EventView)
    requires
        match event {
            EventView::Verdict(_) => !(state is AwaitVerdict),
            EventView::Heredoc(_) => !(state is AwaitHeredoc),
            EventView::Config(_) => !(state is AwaitConfig) && !(state is AwaitPermission),
            EventView::Rewrite(_) => !(state is AwaitRewrite),
        },
    ensures
        next_state(state, event) == state,
{
}

// A call from its payload to its end.

/// A call of Gemini's shell tool, answered to its end: denied, it is blocked; else the document
/// under `decision` says `allow`, whatever the command, and hands over what the registry
/// proposes; without a proposal the call is allowed as it is.
pub proof fn law_a_gemini_call_to_its_end(
    payload: JsonVal,
    tool_input: JsonVal,
    command: Seq<char>,
    answers: Answers,
)
    requires
        payload.member_text("tool_name"@) == Some("run_shell_command"@),
        payload.member("tool_input"@) == Some(tool_input),
        tool_input.member_text("command"@) == Some(command),
        command.len() > 0,
    ensures
        ({
            &&& answered(gemini_opened(payload), answers, 5) matches StateView::Done { outcome }
            &&& match answers.registry {
                RegistryView::Rewrite(Some(new)) if answers.verdict
                    != PermissionVerdict::Deny => {
                    &&& outcome.audit matches Some(entry)
                    &&& entry.original == command && entry.rewritten == new
                    &&& outcome.reply matches ReplyView::Document(document)
                    &&& document.member_text("decision"@) == Some("allow"@)
                    &&& document.member("hookSpecificOutput"@) matches Some(output)
                    &&& output.member("tool_input"@) matches Some(updated)
                    &&& updated.member_text("command"@) == Some(new)
                },
                _ => {
                    &&& outcome.audit is None
                    &&& outcome.reply == ReplyView::Literal(
                        if answers.verdict == PermissionVerdict::Deny {
                            "{\"decision\":\"deny\",\"reason\":\"Blocked by RTK permission rule\"}"@
                        } else {
                            "{\"decision\":\"allow\"}"@
                        },
                    )
                },
            }
        }),
{
    reveal_with_fuel(answered, 6);
    lemma_keys();
}

/// A Copilot CLI call, answered to its end: where the registry has a new command and the old one
/// is not denied, the old one is refused, and the reason names the new one. Else the agent reads
/// nothing.
pub proof fn law_a_copilot_cli_call_to_its_end(
    payload: JsonVal,
    text: Seq<char>,
    tool_args: JsonVal,
    command: Seq<char>,
    answers: Answers,
)
    requires
        payload.member_text("tool_name"@) is None,
        payload.member_text("toolName"@) == Some("bash"@),
        payload.member_text("toolArgs"@) == Some(text),
        json_parse(text) == Ok::<JsonVal, Seq<char>>(tool_args),
        tool_args.member_text("command"@) == Some(command),
        command.len() > 0,
        words(command).len() > 0 ==> words(command)[0] != "rtk"@,
    ensures
        ({
            &&& answered(
                copilot_start(Some(Ok(payload))),
                answers,
                5,
            ) matches StateView::Done { outcome }
            &&& match answers.registry {
                RegistryView::Rewrite(Some(new)) if answers.verdict != PermissionVerdict::Deny
                    && new != command => {
                    &&& outcome.audit matches Some(entry)
                    &&& entry.original == command && entry.rewritten == new
                    &&& outcome.reply matches ReplyView::Document(document)
                    &&& document.member_text("permissionDecision"@) == Some("deny"@)
                    &&& document.member_text("permissionDecisionReason"@) == Some(
                        "Token savings: use `"@ + new + "` instead (rtk saves 60-90% tokens)"@,
                    )
                },
                _ => outcome.reply == ReplyView::Silent,
            }
        }),
{
    law_copilot_takes_up_cli_commands(payload, text, tool_args, command);
    reveal_with_fuel(answered, 6);
    lemma_keys();
}

/// A call of VS Code's shell tool, answered to its end: a new command for one that is not denied
/// is handed over, allowed if an allow rule or the last settings say so. Else the agent reads
/// nothing.
pub proof fn law_a_vscode_call_to_its_end(
    payload: JsonVal,
    tool: Seq<char>,
    tool_input: JsonVal,
    command: Seq<char>,
    answers: Answers,
)
    requires
        payload.member_text("tool_name"@) == Some(tool),
        ({
            ||| tool == "runTerminalCommand"@
            ||| tool == "run_in_terminal"@
            ||| tool == "Bash"@
            ||| tool == "bash"@
        }),
        payload.member("tool_input"@) == Some(tool_input),
        tool_input.member_text("command"@) == Some(command),
        command.len() > 0,
        words(command).len() > 0 ==> words(command)[0] != "rtk"@,
    ensures
        ({
            &&& answered(
                copilot_start(Some(Ok(payload))),
                answers,
                5,
            ) matches StateView::Done { outcome }
            &&& match answers.registry {
                RegistryView::Rewrite(Some(new)) if answers.verdict != PermissionVerdict::Deny
                    && new != command => {
                    let setting = match answers.later_config {
                        Some(config) => config.copilot_permission,
                        None => CopilotPermission::Omit,
                    };
                    &&& outcome.audit matches Some(entry)
                    &&& entry.original == command && entry.rewritten == new
                    &&& outcome.reply matches ReplyView::Document(document)
                    &&& document.member("hookSpecificOutput"@) matches Some(output)
                    &&& output.member("updatedInput"@) matches Some(updated)
                    &&& updated.member_text("command"@) == Some(new)
                    &&& output.member_text("permissionDecision"@) == if answers.verdict
                        == PermissionVerdict::Allow || setting == CopilotPermission::Allow {
                        Some("allow"@)
                    } else if setting == CopilotPermission::Ask {
                        Some("ask"@)
                    } else {
                        None
                    }
                },
                _ => outcome.reply == ReplyView::Silent,
            }
        }),
{
    law_copilot_takes_up_shell_commands(payload, tool, tool_input, command);
    reveal_with_fuel(answered, 6);
    lemma_keys();
}

/// A call of the native PreToolUse hook or of Cursor's, answered to its end: a new command for
/// one that is not denied is handed over, by the former in the tool input as it came. Else the
/// agent is told nothing.
pub proof fn law_a_native_call_to_its_end(
    payload: JsonVal,
    input: Map<Seq<char>, JsonVal>,
    command: Seq<char>,
    answers: Answers,
)
    requires
        payload.member("tool_input"@) == Some(JsonVal::Object(input)),
        input.contains_key("command"@),
        input["command"@] == JsonVal::Text(command),
        command.len() > 0,
    ensures
        ({
            &&& answered(claude_opened(payload), answers, 5) matches StateView::Done {
                outcome: native,
            }
            &&& answered(cursor_opened(Some(payload)), answers, 5) matches StateView::Done {
                outcome: cursor,
            }
            &&& match answers.registry {
                RegistryView::Rewrite(Some(new)) if answers.verdict != PermissionVerdict::Deny
                    && new != command => {
                    &&& native.audit == cursor.audit
                    &&& native.audit matches Some(entry)
                    &&& entry.original == command && entry.rewritten == new
                    &&& native.reply matches ReplyView::Document(document)
                    &&& document.member("hookSpecificOutput"@) matches Some(output)
                    &&& output.member("updatedInput"@) == Some(
                        JsonVal::Object(input.insert("command"@, JsonVal::Text(new))),
                    )
                    &&& output.member_text("permissionDecision"@) == if answers.verdict
                        == PermissionVerdict::Allow {
                        Some("allow"@)
                    } else {
                        None
                    }
                    &&& cursor.reply matches ReplyView::Document(told)
                    &&& told.member("updated_input"@) matches Some(updated)
                    &&& updated.member_text("command"@) == Some(new)
                    &&& told.member_text("permission"@) == Some("allow"@)
                },
                _ => native.reply == ReplyView::Silent && cursor.reply == ReplyView::Literal(
                    "{}"@,
                ),
            }
        }),
{
    reveal_with_fuel(answered, 6);
    lemma_keys();
}

// How the input is read.

/// White space around an input does not count. What stands between is the document; the calls of
/// Copilot and of the native PreToolUse hook complain on standard error if it cannot be read.
pub proof fn law_input_is_read_between_white_space(
    before: Seq<char>,
    text: Seq<char>,
    behind: Seq<char>,
)
    requires
        forall|i: int| 0 <= i < before.len() ==> white_space(#[trigger] before[i]),
        forall|i: int| 0 <= i < behind.len() ==> white_space(#[trigger] behind[i]),
        text.len() > 0,
        !white_space(text[0]),
        !white_space(text.last()),
    ensures
        input_read(before + text + behind) == Some(json_parse(text)),
        match json_parse(text) {
            Ok(payload) => {
                &&& copilot_start(input_read(before + text + behind)) == copilot_start(
                    Some(Ok(payload)),
                )
                &&& claude_start(input_read(before + text + behind)) == claude_start(
                    Some(Ok(payload)),
                )
            },
            Err(complaint) => {
                let end = StateView::Done {
                    outcome: OutcomeView {
                        audit: None,
                        reply: ReplyView::Silent,
                        complaint: Some("[rtk hook] Failed to parse JSON input: "@ + complaint),
                    },
                };
                &&& copilot_start(input_read(before + text + behind)) == end
                &&& claude_start(input_read(before + text + behind)) == end
            },
        },
{
    law_trimming_takes_the_ends(before, text, behind);
}

/// Cursor's input is read likewise, behind any byte order marks, and without a complaint.
pub proof fn law_cursor_input_is_read_between_white_space(
    marks: Seq<char>,
    before: Seq<char>,
    text: Seq<char>,
    behind: Seq<char>,
)
    requires
        forall|i: int| 0 <= i < marks.len() ==> #[trigger] marks[i] == '\u{feff}',
        forall|i: int| 0 <= i < before.len() ==> white_space(#[trigger] before[i]),
        forall|i: int| 0 <= i < behind.len() ==> white_space(#[trigger] behind[i]),
        text.len() > 0,
        before.len() == 0 ==> text[0] != '\u{feff}',
        !white_space(text[0]),
        !white_space(text.last()),
    ensures
        cursor_payload(marks + (before + text + behind)) == match json_parse(text) {
            Ok(payload) => Some(payload),
            Err(_) => None,
        },
{
    let rest = before + text + behind;
    law_leading_marks_vanish(marks, rest);
    if before.len() > 0 {
        assert(rest[0] == before[0]);
        assert(white_space(before[0]));
    } else {
        assert(rest[0] == text[0]);
    }
    assert(without_bom(rest) == rest);
    law_trimming_takes_the_ends(before, text, behind);
}

/// Blank input is answered as no call at all: with silence, and by Cursor's hook with an empty
/// object.
pub proof fn law_blank_input_is_no_call(input: Seq<char>)
    requires
        forall|i: int| 0 <= i < input.len() ==> white_space(#[trigger] input[i]),
    ensures
        input_read(input) is None,
        cursor_payload(input) is None,
        copilot_start(None) == (StateView::Done {
            outcome: OutcomeView { audit: None, reply: ReplyView::Silent, complaint: None },
        }),
        claude_start(None) == (StateView::Done {
            outcome: OutcomeView { audit: None, reply: ReplyView::Silent, complaint: None },
        }),
{
    law_trimmed_empty_iff_blank(input);
    if input.len() > 0 {
        assert(white_space(input[0]));
    }
    assert(without_bom(input) == input);
}

// A call in one step.

/// In one step, a call with a command at `tool_input.command` is answered as it is step by step;
/// without one, or if the input cannot be read, there is no answer, and Cursor gets an empty
/// object.
pub proof fn law_one_step_answers(
    payload: JsonVal,
    verdict: PermissionVerdict,
    answer: RegistryView,
    setting: CopilotPermission,
)
    ensures
        claude_reply(None, verdict, answer) is None,
        vscode_reply(None, setting, verdict, answer) is None,
        cursor_reply(None, verdict, answer) == ReplyView::Literal("{}"@),
        ({
            let command = match payload.member("tool_input"@) {
                Some(tool_input) => tool_input.member_text("command"@),
                None => None,
            };
            let claude = claude_reply(Some(payload), verdict, answer);
            let vscode = vscode_reply(Some(payload), setting, verdict, answer);
            let cursor = cursor_reply(Some(payload), verdict, answer);
            match command {
                Some(command) if command.len() > 0 => {
                    let reply = |agent: Agent|
                        outcome_of(
                            CallView { agent, command, payload },
                            verdict,
                            answer,
                            setting,
                        ).reply;
                    &&& cursor == reply(Agent::Cursor)
                    &&& reply(Agent::PreToolUse) == match claude {
                        Some(document) => ReplyView::Document(document),
                        None => ReplyView::Silent,
                    }
                    &&& reply(Agent::VsCode) == match vscode {
                        Some(document) => ReplyView::Document(document),
                        None => ReplyView::Silent,
                    }
                },
                _ => claude is None && vscode is None && cursor == ReplyView::Literal("{}"@),
            }
        }),
{
}

/// What is written for a reply: nothing, the fixed line, or the document as `serde_json` writes
/// it.
pub proof fn law_replies_are_written(line: Seq<char>, document: JsonVal)
    ensures
        ReplyView::Silent.line() is None,
        ReplyView::Literal(line).line() == Some(line),
        ReplyView::Document(document).line() == Some(json_text(document)),
        document_line(None) is None,
        document_line(Some(document)) == Some(json_text(document)),
{
}

} // verus!
