//! Whole hook calls in one step, for hosts that have the answers at hand.
//!
//! Each function reads the input, settles the call with the given answers, and returns the line
//! for the agent. Nothing is logged here.
use vstd::prelude::*;

use crate::hook::{
    claude_action, command_of, cursor_outcome, cursor_pass, get_rewritten, handle_cursor,
    handle_vscode, json_view, payload_command, process_claude_payload, rewriting, vscode_outcome,
    ActionView, CopilotPermission, PayloadAction, PermissionVerdict, RegistryAnswer, RegistryView,
    Reply, ReplyView,
};
use crate::json::{
    json_read, json_text, nesting_limit, parse_json, reads_as, reads_like, render_json, Json,
    JsonVal,
};
use crate::laws::law_documents_can_be_read;
use crate::session::{Agent, CallView};
use crate::text::{strip_leading_bom, text_view, without_bom};

verus! {

/// The document that a text is read as, if it can be read.
fn read(text: &str) -> (res: Option<Json>)
    ensures
        json_view(res) == json_read(text@),
{
    match parse_json(text) {
        Ok(document) => Some(document),
        Err(_) => None,
    }
}

/// The document that the native PreToolUse hook answers with.
pub open spec fn claude_reply(
    payload: Option<JsonVal>,
    verdict: PermissionVerdict,
    answer: RegistryView,
) -> Option<JsonVal> {
    match payload {
        Some(v) => match command_of(v) {
            Some(cmd) => match claude_action(
                v,
                verdict,
                rewriting(cmd, answer),
            ) {
                ActionView::Rewrite { cmd: _, rewritten: _, output } => Some(output),
                _ => None,
            },
            None => None,
        },
        None => None,
    }
}

/// The document that the native PreToolUse hook answers with.
pub fn claude_document(
    payload: Option<Json>,
    verdict: PermissionVerdict,
    answer: RegistryAnswer,
) -> (res: Option<Json>)
    ensures
        json_view(res) == claude_reply(
            json_view(payload),
            verdict,
            answer@,
        ),
{
    let v = match payload {
        Some(v) => v,
        None => return None,
    };
    let rewritten = match payload_command(&v) {
        Some(cmd) => get_rewritten(cmd, answer),
        None => return None,
    };
    match process_claude_payload(&v, verdict, rewritten) {
        PayloadAction::Rewrite { cmd: _, rewritten: _, output } => Some(output),
        _ => None,
    }
}

/// The line that an optional document is written as.
pub open spec fn document_line(document: Option<JsonVal>) -> Option<Seq<char>> {
    match document {
        Some(document) => Some(json_text(document)),
        None => None,
    }
}

/// Runs the native PreToolUse hook on its input.
pub fn run_claude_inner(
    input: &str,
    verdict: PermissionVerdict,
    answer: RegistryAnswer,
) -> (res: Option<String>)
    ensures
        text_view(res) == document_line(
            claude_reply(json_read(input@), verdict, answer@),
        ),
        match (res, claude_reply(json_read(input@), verdict, answer@)) {
            (Some(line), Some(document)) => {
                &&& document.within(nesting_limit(), true) ==> reads_like(line@, document)
                &&& document.within(nesting_limit(), false) ==> reads_as(line@, document)
            },
            _ => true,
        },
{
    match claude_document(read(input), verdict, answer) {
        Some(document) => Some(render_json(&document)),
        None => None,
    }
}

/// What Cursor gets to read.
pub open spec fn cursor_reply(
    payload: Option<JsonVal>,
    verdict: PermissionVerdict,
    answer: RegistryView,
) -> ReplyView {
    match payload {
        Some(v) => match command_of(v) {
            Some(cmd) => cursor_outcome(
                cmd,
                verdict,
                rewriting(cmd, answer),
            ).reply,
            None => cursor_pass(),
        },
        None => cursor_pass(),
    }
}

/// What Cursor gets to read.
pub fn cursor_answer(
    payload: Option<Json>,
    verdict: PermissionVerdict,
    answer: RegistryAnswer,
) -> (res: Reply)
    ensures
        res@ == cursor_reply(json_view(payload), verdict, answer@),
{
    let v = match payload {
        Some(v) => v,
        None => return Reply::Literal("{}"),
    };
    match payload_command(&v) {
        Some(cmd) => {
            let rewritten = get_rewritten(cmd, answer);
            handle_cursor(cmd, verdict, rewritten).reply
        },
        None => Reply::Literal("{}"),
    }
}

/// Runs the Cursor hook on its input, for a given verdict of the permission rules.
pub fn run_cursor_inner_with_rules(
    input: &str,
    verdict: PermissionVerdict,
    answer: RegistryAnswer,
) -> (res: String)
    ensures
        cursor_reply(
            json_read(without_bom(input@)),
            verdict,
            answer@,
        ).line() == Some(res@),
        match cursor_reply(
            json_read(without_bom(input@)),
            verdict,
            answer@,
        ) {
            ReplyView::Document(document) => reads_as(res@, document),
            _ => true,
        },
{
    proof {
        if let Some(payload) = json_read(without_bom(input@)) {
            if let Some(command) = command_of(payload) {
                let call = CallView { agent: Agent::Cursor, command, payload };
                law_documents_can_be_read(call, verdict, answer@, CopilotPermission::Omit, false);
            }
        }
    }
    let reply = cursor_answer(read(strip_leading_bom(input)), verdict, answer);
    match reply.line() {
        Some(line) => line,
        None => String::new(),
    }
}

/// Runs the Cursor hook on its input where no permission rules are set.
pub fn run_cursor_inner(input: &str, answer: RegistryAnswer) -> (res: String)
    ensures
        cursor_reply(
            json_read(without_bom(input@)),
            PermissionVerdict::Ask,
            answer@,
        ).line() == Some(res@),
        match cursor_reply(
            json_read(without_bom(input@)),
            PermissionVerdict::Ask,
            answer@,
        ) {
            ReplyView::Document(document) => reads_as(res@, document),
            _ => true,
        },
{
    run_cursor_inner_with_rules(input, PermissionVerdict::Ask, answer)
}

/// The document that VS Code gets to read.
pub open spec fn vscode_reply(
    payload: Option<JsonVal>,
    setting: CopilotPermission,
    verdict: PermissionVerdict,
    answer: RegistryView,
) -> Option<JsonVal> {
    match payload {
        Some(v) => match command_of(v) {
            Some(cmd) => match vscode_outcome(
                cmd,
                verdict,
                rewriting(cmd, answer),
                setting,
            ).reply {
                ReplyView::Document(document) => Some(document),
                _ => None,
            },
            None => None,
        },
        None => None,
    }
}

/// The document that VS Code gets to read.
pub fn vscode_document(
    payload: Option<Json>,
    copilot_perm: CopilotPermission,
    verdict: PermissionVerdict,
    answer: RegistryAnswer,
) -> (res: Option<Json>)
    ensures
        json_view(res) == vscode_reply(
            json_view(payload),
            copilot_perm,
            verdict,
            answer@,
        ),
{
    let v = match payload {
        Some(v) => v,
        None => return None,
    };
    match payload_command(&v) {
        Some(cmd) => {
            let rewritten = get_rewritten(cmd, answer);
            match handle_vscode(cmd, verdict, rewritten, copilot_perm).reply {
                Reply::Document(document) => Some(document),
                _ => None,
            }
        },
        None => None,
    }
}

/// Runs the VS Code hook on its input, for a given setting and verdict.
pub fn run_copilot_vscode_inner(
    input: &str,
    copilot_perm: CopilotPermission,
    verdict: PermissionVerdict,
    answer: RegistryAnswer,
) -> (res: Option<String>)
    ensures
        text_view(res) == document_line(
            vscode_reply(json_read(input@), copilot_perm, verdict, answer@),
        ),
        match (
            res,
            vscode_reply(json_read(input@), copilot_perm, verdict, answer@),
        ) {
            (Some(line), Some(document)) => reads_as(line@, document),
            _ => true,
        },
{
    proof {
        if let Some(payload) = json_read(input@) {
            if let Some(command) = command_of(payload) {
                let call = CallView { agent: Agent::VsCode, command, payload };
                law_documents_can_be_read(call, verdict, answer@, copilot_perm, false);
            }
        }
    }
    match vscode_document(read(input), copilot_perm, verdict, answer) {
        Some(document) => Some(render_json(&document)),
        None => None,
    }
}

} // verus!
