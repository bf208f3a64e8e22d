//! What holds of every hook call, whatever the agent, the rules and the registry say.
use vstd::prelude::*;

use crate::audit::{
    fields, law_entry_is_one_line, law_line_has_four_fields, line_of, sanitized, AuditView,
};
use crate::hook::{
    claude_action, claude_decision, command_object, command_of, config_in_force, cursor_document,
    format_of, gemini_rewrite, hook_document, is_shell_tool, is_single, rewriting, suggestion,
    tool_args_of, updated_input, uses_rtk, vscode_decision, vscode_outcome, ActionView, ConfigView,
    CopilotPermission, FormatView, OutcomeView, PermissionVerdict, RegistryView, ReplyView,
};
use crate::json::{json_read, law_alike_members, nesting_limit, reads_like, JsonVal};
use crate::oneshot::{claude_reply, cursor_reply, vscode_reply};
use crate::session::{
    copilot_start, cursor_payload, next_state, outcome_of, silent_end, Agent, CallView, EventView,
    StateView,
};
use crate::text::{law_leading_marks_vanish, BOM};

verus! {

/// All answers that a host has for a call. The settings may change between two looks at them.
pub struct Answers {
    pub verdict: PermissionVerdict,
    pub registry: RegistryView,
    pub config: Option<ConfigView>,
    pub later_config: Option<ConfigView>,
}

/// The answer that the host gives in a state.
pub open spec fn answer_to(state: StateView, answers: Answers) -> EventView {
    match state {
        StateView::AwaitVerdict { call: _ } => EventView::Verdict(answers.verdict),
        StateView::AwaitHeredoc { call: _, verdict: _ } => EventView::Heredoc(
            answers.registry is Heredoc,
        ),
        StateView::AwaitConfig { call: _, verdict: _ } => EventView::Config(answers.config),
        StateView::AwaitRewrite { call: _, verdict: _, excluded: _, transparent_prefixes: _ } => {
            EventView::Rewrite(
                match answers.registry {
                    RegistryView::Heredoc => None,
                    RegistryView::Rewrite(candidate) => candidate,
                },
            )
        },
        _ => EventView::Config(answers.later_config),
    }
}

/// The state once the host has given `n` answers.
pub open spec fn answered(state: StateView, answers: Answers, n: nat) -> StateView
    decreases n,
{
    if n == 0 {
        state
    } else {
        let before = answered(state, answers, (n - 1) as nat);
        next_state(before, answer_to(before, answers))
    }
}

/// Five answers are enough: a call then ends with the outcome that its answers settle.
pub proof fn law_a_call_settles(call: CallView, answers: Answers)
    ensures
        answered(StateView::AwaitVerdict { call }, answers, 5) == (StateView::Done {
            outcome: outcome_of(
                call,
                answers.verdict,
                answers.registry,
                config_in_force(answers.later_config).copilot_permission,
            ),
        }),
{
    reveal_with_fuel(answered, 6);
}

/// The registry is asked about the command of the call, with the exclusions and the prefixes of
/// the settings, and with none where the settings cannot be loaded.
pub proof fn law_the_registry_is_asked_with_the_settings(
    call: CallView,
    verdict: PermissionVerdict,
    loaded: Option<ConfigView>,
)
    ensures
        ({
            let next = next_state(
                StateView::AwaitConfig { call, verdict },
                EventView::Config(loaded),
            );
            match loaded {
                Some(config) => next == (StateView::AwaitRewrite {
                    call,
                    verdict,
                    excluded: config.exclude_commands,
                    transparent_prefixes: config.transparent_prefixes,
                }),
                None => next == (StateView::AwaitRewrite {
                    call,
                    verdict,
                    excluded: seq![],
                    transparent_prefixes: seq![],
                }),
            }
        }),
{
}

/// No answer makes a well-formed state ill-formed: after the verdict, the host is asked about
/// calls only that are not denied.
pub proof fn law_states_stay_well_formed(state: StateView, event: EventView)
    requires
        state.wf(),
    ensures
        next_state(state, event).wf(),
{
}

/// An outcome is final.
pub proof fn law_an_outcome_is_final(outcome: OutcomeView, event: EventView)
    ensures
        next_state(StateView::Done { outcome }, event) == (StateView::Done {
            outcome,
        }),
{
}

/// A denied command is never rewritten: the registry is not asked, nothing that it or the
/// settings could say changes the outcome, and the agent reads no document.
pub proof fn law_denied_is_never_rewritten(
    call: CallView,
    answer: RegistryView,
    setting: CopilotPermission,
)
    requires
        call.wf(),
    ensures
        next_state(
            StateView::AwaitVerdict { call },
            EventView::Verdict(PermissionVerdict::Deny),
        ) == (StateView::Done {
            outcome: outcome_of(call, PermissionVerdict::Deny, answer, setting),
        }),
        ({
            let outcome = outcome_of(
                call,
                PermissionVerdict::Deny,
                answer,
                setting,
            );
            &&& outcome.reply == match call.agent {
                Agent::Gemini => ReplyView::Literal(
                    "{\"decision\":\"deny\",\"reason\":\"Blocked by RTK permission rule\"}"@,
                ),
                Agent::Cursor => ReplyView::Literal("{}"@),
                _ => ReplyView::Silent,
            }
            &&& match outcome.audit {
                Some(entry) => entry.original == call.command && entry.rewritten == ""@
                    && entry.action != "rewrite"@,
                None => call.agent == Agent::Gemini,
            }
        }),
{
    reveal_strlit("deny");
    reveal_strlit("rewrite");
    reveal_strlit("skip:deny_rule");
    assert("deny"@.len() == 4 && "rewrite"@.len() == 7 && "skip:deny_rule"@.len() == 14);
}

/// The text at a path of two keys.
pub open spec fn text_at(v: JsonVal, outer: Seq<char>, inner: Seq<char>) -> Option<Seq<char>> {
    match v.member(outer) {
        Some(v) => v.member_text(inner),
        None => None,
    }
}

/// The text at a path of three keys.
pub open spec fn deep_text_at(
    v: JsonVal,
    outer: Seq<char>,
    middle: Seq<char>,
    inner: Seq<char>,
) -> Option<Seq<char>> {
    match v.member(outer) {
        Some(v) => text_at(v, middle, inner),
        None => None,
    }
}

/// The command that a document hands to an agent. Copilot CLI takes none; it is shown a refusal
/// with a suggestion.
pub open spec fn handed_command(agent: Agent, document: JsonVal) -> Option<Seq<char>> {
    match agent {
        Agent::VsCode | Agent::PreToolUse => deep_text_at(
            document,
            "hookSpecificOutput"@,
            "updatedInput"@,
            "command"@,
        ),
        Agent::Gemini => deep_text_at(
            document,
            "hookSpecificOutput"@,
            "tool_input"@,
            "command"@,
        ),
        Agent::Cursor => text_at(document, "updated_input"@, "command"@),
        Agent::CopilotCli => None,
    }
}

/// The keys of the documents differ where they must.
pub(crate) proof fn lemma_keys()
    ensures
        "hookEventName"@ != "updatedInput"@,
        "permissionDecisionReason"@ != "updatedInput"@,
        "permissionDecision"@ != "updatedInput"@,
        "permissionDecision"@ != "hookEventName"@,
        "permissionDecision"@ != "permissionDecisionReason"@,
        "hookEventName"@ != "permissionDecisionReason"@,
        "decision"@ != "hookSpecificOutput"@,
        "continue"@ != "permission"@,
        "continue"@ != "updated_input"@,
        "permission"@ != "updated_input"@,
        "continue"@ != "hookSpecificOutput"@,
        "permission"@ != "hookSpecificOutput"@,
        "updated_input"@ != "hookSpecificOutput"@,
{
    reveal_strlit("hookEventName");
    assert("hookEventName"@.len() == 13);
    reveal_strlit("permissionDecisionReason");
    assert("permissionDecisionReason"@.len() == 24);
    reveal_strlit("permissionDecision");
    assert("permissionDecision"@.len() == 18);
    reveal_strlit("updatedInput");
    assert("updatedInput"@.len() == 12);
    reveal_strlit("decision");
    assert("decision"@.len() == 8);
    reveal_strlit("hookSpecificOutput");
    assert("hookSpecificOutput"@.len() == 18);
    reveal_strlit("continue");
    assert("continue"@.len() == 8);
    reveal_strlit("permission");
    assert("permission"@.len() == 10);
    reveal_strlit("updated_input");
    assert("updated_input"@.len() == 13);
}

/// A command that is not denied and that the registry changes is logged as rewritten, and every
/// agent is handed the new command, Copilot CLI as a suggestion with a refusal.
pub proof fn law_a_new_command_is_handed_over(
    call: CallView,
    verdict: PermissionVerdict,
    candidate: Seq<char>,
    setting: CopilotPermission,
)
    requires
        call.wf(),
        verdict != PermissionVerdict::Deny,
        candidate != call.command,
    ensures
        ({
            let outcome = outcome_of(
                call,
                verdict,
                RegistryView::Rewrite(Some(candidate)),
                setting,
            );
            &&& outcome.audit == Some(
                AuditView {
                    action: "rewrite"@,
                    original: call.command,
                    rewritten: candidate,
                },
            )
            &&& outcome.reply matches ReplyView::Document(document)
            &&& if call.agent == Agent::CopilotCli {
                &&& document.member_text("permissionDecision"@) == Some("deny"@)
                &&& document.member_text("permissionDecisionReason"@) == Some(
                    "Token savings: use `"@ + candidate
                        + "` instead (rtk saves 60-90% tokens)"@,
                )
            } else {
                handed_command(call.agent, document) == Some(candidate)
            }
        }),
{
    lemma_keys();
}

/// A command that holds a here-document, that the registry does not know, or that it leaves as
/// it is, goes through unchanged: no agent but Gemini reads a document. Gemini is asked about no
/// here-document and gets a proposal even if it repeats the command; that is logged as a
/// rewriting of the command into itself.
pub proof fn law_an_unchanged_command_passes(
    call: CallView,
    verdict: PermissionVerdict,
    answer: RegistryView,
    setting: CopilotPermission,
)
    requires
        call.wf(),
        verdict != PermissionVerdict::Deny,
        rewriting(call.command, answer) is None,
    ensures
        ({
            let outcome = outcome_of(call, verdict, answer, setting);
            match call.agent {
                Agent::VsCode | Agent::CopilotCli => outcome == OutcomeView::unlogged(
                    ReplyView::Silent,
                ),
                Agent::PreToolUse => outcome == OutcomeView::logged(
                    "skip:no_match"@,
                    call.command,
                    ""@,
                    ReplyView::Silent,
                ),
                Agent::Cursor => outcome == OutcomeView::unlogged(
                    ReplyView::Literal("{}"@),
                ),
                Agent::Gemini => match answer {
                    RegistryView::Rewrite(Some(candidate)) => {
                        &&& candidate == call.command
                        &&& outcome == OutcomeView::logged(
                            "rewrite"@,
                            call.command,
                            call.command,
                            ReplyView::Document(gemini_rewrite(call.command)),
                        )
                    },
                    _ => outcome == OutcomeView::unlogged(
                        ReplyView::Literal("{\"decision\":\"allow\"}"@),
                    ),
                },
            }
        }),
{
}

/// The action of an entry needs no escapes: it holds no bar, no newline and no carriage return.
/// So, whatever the command and the answers, the entry of a call makes one line of four fields,
/// as long as the time is such a text too.
pub proof fn law_entries_keep_to_their_fields(
    call: CallView,
    verdict: PermissionVerdict,
    answer: RegistryView,
    setting: CopilotPermission,
    time: Seq<char>,
)
    requires
        !time.contains('|') && !time.contains('\n') && !time.contains('\r'),
    ensures
        match outcome_of(call, verdict, answer, setting).audit {
            Some(entry) => {
                &&& !entry.action.contains('|')
                &&& !entry.action.contains('\n')
                &&& !entry.action.contains('\r')
                &&& fields(line_of(time, entry)) == seq![
                    time,
                    entry.action,
                    sanitized(entry.original),
                    sanitized(entry.rewritten),
                ]
                &&& !line_of(time, entry).contains('\n')
                &&& !line_of(time, entry).contains('\r')
            },
            None => true,
        },
{
    reveal_strlit("rewrite");
    reveal_strlit("deny");
    reveal_strlit("skip:deny_rule");
    reveal_strlit("skip:no_match");
    if let Some(entry) = outcome_of(call, verdict, answer, setting).audit {
        law_line_has_four_fields(time, entry);
        law_entry_is_one_line(time, entry);
    }
}

/// A rewritten command is never the command itself.
pub proof fn law_rewriting_changes_the_command(cmd: Seq<char>, answer: RegistryView)
    ensures
        rewriting(cmd, answer) != Some(cmd),
        rewriting(cmd, RegistryView::Heredoc) is None,
{
}

/// Gemini and Cursor are never left without a line to read.
pub proof fn law_gemini_and_cursor_get_an_answer(
    call: CallView,
    verdict: PermissionVerdict,
    answer: RegistryView,
    setting: CopilotPermission,
)
    requires
        call.agent == Agent::Gemini || call.agent == Agent::Cursor,
    ensures
        outcome_of(call, verdict, answer, setting).reply.line() is Some,
{
}

/// A fixed reply stands on one line, as documents do, so no agent reads more than one line.
pub proof fn law_fixed_replies_are_single_lines(
    call: CallView,
    verdict: PermissionVerdict,
    answer: RegistryView,
    setting: CopilotPermission,
)
    ensures
        match outcome_of(call, verdict, answer, setting).reply {
            ReplyView::Literal(s) => !s.contains('\n'),
            _ => true,
        },
{
    reveal_strlit("{}");
    reveal_strlit("{\"decision\":\"allow\"}");
    reveal_strlit("{\"decision\":\"deny\",\"reason\":\"Blocked by RTK permission rule\"}");
}

/// The native PreToolUse hook hands back the tool input with every member but the command as it
/// was, and none added.
pub proof fn law_tool_input_is_kept(
    payload: JsonVal,
    verdict: PermissionVerdict,
    rewritten: Seq<char>,
    key: Seq<char>,
)
    requires
        command_of(payload) is Some,
        verdict != PermissionVerdict::Deny,
    ensures
        ({
            let action = claude_action(payload, verdict, Some(rewritten));
            &&& action matches ActionView::Rewrite { cmd, rewritten: _, output }
            &&& output.member("hookSpecificOutput"@) matches Some(hook_output)
            &&& hook_output.member("updatedInput"@) matches Some(updated)
            &&& payload.member("tool_input"@) matches Some(tool_input)
            &&& updated is Object
            &&& updated.member_text("command"@) == Some(rewritten)
            &&& key != "command"@ ==> updated.member(key) == tool_input.member(key)
            &&& hook_output.member_text("hookEventName"@) == Some("PreToolUse"@)
            &&& hook_output.member_text("permissionDecisionReason"@) == Some("RTK auto-rewrite"@)
            &&& hook_output.member_text("permissionDecision"@) == if verdict
                == PermissionVerdict::Allow {
                Some("allow"@)
            } else {
                None
            }
        }),
{
    lemma_keys();
}

/// VS Code is told the permission that the rules and the setting call for: an allow rule
/// overrides the setting, and where the setting says nothing the member is left out.
pub proof fn law_vscode_permission(
    cmd: Seq<char>,
    verdict: PermissionVerdict,
    rewritten: Seq<char>,
    setting: CopilotPermission,
)
    requires
        verdict != PermissionVerdict::Deny,
    ensures
        ({
            let outcome = vscode_outcome(cmd, verdict, Some(rewritten), setting);
            &&& outcome.reply matches ReplyView::Document(document)
            &&& document.member("hookSpecificOutput"@) matches Some(hook_output)
            &&& hook_output.member_text("hookEventName"@) == Some("PreToolUse"@)
            &&& hook_output.member_text("permissionDecisionReason"@) == Some("RTK auto-rewrite"@)
            &&& if verdict == PermissionVerdict::Allow || setting == CopilotPermission::Allow {
                hook_output.member_text("permissionDecision"@) == Some("allow"@)
            } else if setting == CopilotPermission::Ask {
                hook_output.member_text("permissionDecision"@) == Some("ask"@)
            } else {
                hook_output.member("permissionDecision"@) is None
            }
        }),
{
    lemma_keys();
}

/// Whatever Cursor is handed lets the call continue, allows it, and has none of the members
/// that other agents look for.
pub proof fn law_cursor_document(rewritten: Seq<char>)
    ensures
        ({
            let document = cursor_document(rewritten);
            &&& document.member("continue"@) == Some(JsonVal::Bool(true))
            &&& document.member_text("permission"@) == Some("allow"@)
            &&& document.member("hookSpecificOutput"@) is None
        }),
{
    lemma_keys();
}

/// Byte order marks before Cursor's input change nothing.
pub proof fn law_cursor_ignores_leading_marks(marks: Seq<char>, input: Seq<char>)
    requires
        forall|i: int| 0 <= i < marks.len() ==> #[trigger] marks[i] == BOM,
    ensures
        cursor_payload(marks + input) == cursor_payload(input),
{
    law_leading_marks_vanish(marks, input);
}

/// A call with a tool name in snake case is never taken for one of Copilot CLI, and a detected
/// command is never empty and never one that already uses rtk.
pub proof fn law_detected_formats(v: JsonVal, tool_args: Option<JsonVal>)
    ensures
        match format_of(v, tool_args) {
            FormatView::VsCode(command) => {
                &&& command.len() > 0
                &&& !uses_rtk(command)
                &&& v.member_text("tool_name"@) is Some
            },
            FormatView::CopilotCli(command) => {
                &&& command.len() > 0
                &&& !uses_rtk(command)
                &&& v.member_text("tool_name"@) is None
                &&& v.member_text("toolName"@) == Some("bash"@)
            },
            FormatView::PassThrough => true,
        },
{
}

/// A Copilot call whose command is a single one that already uses rtk ends at once: the host is
/// asked nothing, nothing is logged, and the agent reads nothing.
pub proof fn law_rtk_commands_pass(v: JsonVal, command: Seq<char>)
    requires
        uses_rtk(command),
        if v.member_text("tool_name"@) is Some {
            command_of(v) == Some(command)
        } else {
            tool_args_of(v) matches Some(args) && args.member_text("command"@) == Some(command)
        },
    ensures
        format_of(v, tool_args_of(v)) == FormatView::PassThrough,
        copilot_start(Some(Ok(v))) == silent_end(),
{
}

/// A line of more than one command is not passed by for beginning with `rtk`: the rules are
/// asked about it.
pub proof fn law_compound_commands_are_taken_up(v: JsonVal, command: Seq<char>)
    requires
        !is_single(command),
        match v.member_text("tool_name"@) {
            Some(tool) => is_shell_tool(tool) && command_of(v) == Some(command),
            None => {
                &&& v.member_text("toolName"@) == Some("bash"@)
                &&& tool_args_of(v) matches Some(args)
                &&& args.member_text("command"@) == Some(command)
            },
        },
    ensures
        copilot_start(Some(Ok(v))) == (StateView::AwaitVerdict {
            call: CallView {
                agent: if v.member_text("tool_name"@) is Some {
                    Agent::VsCode
                } else {
                    Agent::CopilotCli
                },
                command,
                payload: v,
            },
        }),
{
}

/// What no agent's tool name stands in is passed through.
pub proof fn law_unknown_formats_pass(v: JsonVal, tool_args: Option<JsonVal>)
    requires
        v.member_text("tool_name"@) is None,
        v.member_text("toolName"@) is None,
    ensures
        format_of(v, tool_args) == FormatView::PassThrough,
{
}

/// A document may be taken to nest deeper than it does.
proof fn lemma_within_deeper(v: JsonVal, depth: nat, more: nat, fractions: bool)
    requires
        v.within(depth, fractions),
        depth <= more,
    ensures
        v.within(more, fractions),
    decreases depth,
{
    match v {
        JsonVal::Array(items) => {
            assert forall|i: int| 0 <= i < items.len() implies (#[trigger] items[i]).within(
                (more - 1) as nat,
                fractions,
            ) by {
                lemma_within_deeper(items[i], (depth - 1) as nat, (more - 1) as nat, fractions);
            }
        },
        JsonVal::Object(members) => {
            assert forall|key: Seq<char>| #[trigger]
                members.contains_key(key) implies members[key].within(
                (more - 1) as nat,
                fractions,
            ) by {
                lemma_within_deeper(members[key], (depth - 1) as nat, (more - 1) as nat, fractions);
            }
        },
        _ => {},
    }
}

/// Setting a member that is deep enough down keeps an object within its depth.
proof fn lemma_within_with_member(
    v: JsonVal,
    key: Seq<char>,
    value: JsonVal,
    depth: nat,
    fractions: bool,
)
    requires
        v.within(depth + 1, fractions),
        value.within(depth, fractions),
    ensures
        v.with_member(key, value).within(depth + 1, fractions),
{
    if let JsonVal::Object(members) = v {
        let changed = members.insert(key, value);
        assert forall|k: Seq<char>| #[trigger]
            changed.contains_key(k) implies changed[k].within(depth, fractions) by {
            if k != key {
                assert(members.contains_key(k));
            }
        }
    }
}

/// Settled in one step, a call ends with the reply that it gets when the host is asked step by
/// step.
pub proof fn law_one_step_agrees(
    payload: JsonVal,
    command: Seq<char>,
    verdict: PermissionVerdict,
    answer: RegistryView,
    setting: CopilotPermission,
)
    requires
        command_of(payload) == Some(command),
    ensures
        ({
            let reply = |agent: Agent|
                outcome_of(
                    CallView { agent, command, payload },
                    verdict,
                    answer,
                    setting,
                ).reply;
            let as_reply = |document: Option<JsonVal>|
                match document {
                    Some(document) => ReplyView::Document(document),
                    None => ReplyView::Silent,
                };
            &&& reply(Agent::Cursor) == cursor_reply(
                Some(payload),
                verdict,
                answer,
            )
            &&& reply(Agent::PreToolUse) == as_reply(
                claude_reply(Some(payload), verdict, answer),
            )
            &&& reply(Agent::VsCode) == as_reply(
                vscode_reply(Some(payload), setting, verdict, answer),
            )
        }),
{
}

proof fn lemma_within_hook_document(
    updated: JsonVal,
    decision: Option<Seq<char>>,
    depth: nat,
    fractions: bool,
)
    requires
        updated.within(depth, fractions),
    ensures
        hook_document(updated, decision).within(depth + 2, fractions),
{
    let empty = JsonVal::empty_object();
    let event = JsonVal::Text("PreToolUse"@);
    let reason = JsonVal::Text("RTK auto-rewrite"@);
    let a = empty.with_member("hookEventName"@, event);
    let b = a.with_member("permissionDecisionReason"@, reason);
    let c = b.with_member("updatedInput"@, updated);
    lemma_within_with_member(empty, "hookEventName"@, event, depth, fractions);
    lemma_within_with_member(a, "permissionDecisionReason"@, reason, depth, fractions);
    lemma_within_with_member(b, "updatedInput"@, updated, depth, fractions);
    let hook_output = match decision {
        Some(decision) => {
            let decision = JsonVal::Text(decision);
            lemma_within_with_member(c, "permissionDecision"@, decision, depth, fractions);
            c.with_member("permissionDecision"@, decision)
        },
        None => c,
    };
    lemma_within_with_member(empty, "hookSpecificOutput"@, hook_output, depth + 1, fractions);
}

/// The documents for VS Code, Copilot CLI, Gemini and Cursor hold no fraction and nest little,
/// whatever the command. That of the native PreToolUse hook nests two levels deeper than the
/// tool input, and holds fractions only if that does. So `serde_json` reads in its line the very
/// document that was decided on, or one that differs from it in fractions only.
pub proof fn law_documents_can_be_read(
    call: CallView,
    verdict: PermissionVerdict,
    answer: RegistryView,
    setting: CopilotPermission,
    fractions: bool,
)
    requires
        call.agent == Agent::PreToolUse ==> (match call.payload.member("tool_input"@) {
            Some(tool_input) => tool_input.within((nesting_limit() - 2) as nat, fractions),
            None => true,
        }),
    ensures
        match outcome_of(call, verdict, answer, setting).reply {
            ReplyView::Document(document) => document.within(nesting_limit(), fractions),
            _ => true,
        },
{
    let outcome = outcome_of(call, verdict, answer, setting);
    if let ReplyView::Document(document) = outcome.reply {
        let rewritten = outcome.audit->0.rewritten;
        let command = JsonVal::Text(rewritten);
        let empty = JsonVal::empty_object();
        let object = command_object(rewritten);
        lemma_within_with_member(empty, "command"@, command, 0, fractions);
        match call.agent {
            Agent::VsCode => {
                let decision = vscode_decision(verdict, setting);
                lemma_within_hook_document(object, decision, 1, fractions);
                lemma_within_deeper(document, 3, nesting_limit(), fractions);
            },
            Agent::CopilotCli => {
                let deny = JsonVal::Text("deny"@);
                let reason = JsonVal::Text(suggestion(rewritten));
                let a = empty.with_member("permissionDecision"@, deny);
                lemma_within_with_member(empty, "permissionDecision"@, deny, 0, fractions);
                lemma_within_with_member(a, "permissionDecisionReason"@, reason, 0, fractions);
                lemma_within_deeper(document, 1, nesting_limit(), fractions);
            },
            Agent::Gemini => {
                let allow = JsonVal::Text("allow"@);
                let a = empty.with_member("decision"@, allow);
                let output = empty.with_member("tool_input"@, object);
                lemma_within_with_member(empty, "decision"@, allow, 2, fractions);
                lemma_within_with_member(empty, "tool_input"@, object, 1, fractions);
                lemma_within_with_member(a, "hookSpecificOutput"@, output, 2, fractions);
                lemma_within_deeper(document, 3, nesting_limit(), fractions);
            },
            Agent::PreToolUse => {
                let depth = (nesting_limit() - 3) as nat;
                let tool_input = call.payload.member("tool_input"@)->0;
                let updated = updated_input(call.payload, rewritten);
                let decision = claude_decision(verdict);
                lemma_within_with_member(tool_input, "command"@, command, depth, fractions);
                lemma_within_hook_document(updated, decision, depth + 1, fractions);
            },
            Agent::Cursor => {
                let allow = JsonVal::Text("allow"@);
                let a = empty.with_member("continue"@, JsonVal::Bool(true));
                let b = a.with_member("permission"@, allow);
                lemma_within_with_member(empty, "continue"@, JsonVal::Bool(true), 1, fractions);
                lemma_within_with_member(a, "permission"@, allow, 1, fractions);
                lemma_within_with_member(b, "updated_input"@, object, 1, fractions);
                lemma_within_deeper(document, 2, nesting_limit(), fractions);
            },
        }
    }
}

/// Documents that are alike have the same text at a path.
proof fn lemma_alike_text_at(
    v: JsonVal,
    document: JsonVal,
    outer: Seq<char>,
    inner: Seq<char>,
    depth: nat,
)
    requires
        v.alike(document, depth),
    ensures
        text_at(v, outer, inner) == text_at(document, outer, inner),
{
    law_alike_members(v, document, outer, depth);
    if document.member(outer) is Some {
        law_alike_members(
            v.member(outer)->0,
            document.member(outer)->0,
            inner,
            (depth - 1) as nat,
        );
    }
}

/// Whatever fractions stand in the tool input, what is read from the line of a reply hands the
/// agent the new command.
pub proof fn law_the_new_command_is_read_back(
    call: CallView,
    verdict: PermissionVerdict,
    candidate: Seq<char>,
    setting: CopilotPermission,
    line: Seq<char>,
)
    requires
        call.wf(),
        call.agent != Agent::CopilotCli,
        verdict != PermissionVerdict::Deny,
        candidate != call.command,
        match outcome_of(call, verdict, RegistryView::Rewrite(Some(candidate)), setting).reply {
            ReplyView::Document(document) => reads_like(line, document),
            _ => true,
        },
    ensures
        match json_read(line) {
            Some(read) => handed_command(call.agent, read) == Some(candidate),
            None => false,
        },
{
    law_a_new_command_is_handed_over(call, verdict, candidate, setting);
    let answer = RegistryView::Rewrite(Some(candidate));
    let document = outcome_of(call, verdict, answer, setting).reply->Document_0;
    let read = json_read(line)->0;
    match call.agent {
        Agent::Cursor => {
            lemma_alike_text_at(read, document, "updated_input"@, "command"@, nesting_limit());
        },
        _ => {
            let middle = if call.agent == Agent::Gemini {
                "tool_input"@
            } else {
                "updatedInput"@
            };
            law_alike_members(read, document, "hookSpecificOutput"@, nesting_limit());
            lemma_alike_text_at(
                read.member("hookSpecificOutput"@)->0,
                document.member("hookSpecificOutput"@)->0,
                middle,
                "command"@,
                (nesting_limit() - 1) as nat,
            );
        },
    }
}

} // verus!
