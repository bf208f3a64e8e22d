use rtk::audit::{audit_enabled, audit_line, sanitize_log_field, AuditEntry};
use rtk::hook::{
    already_uses_rtk, detect_format, detect_format_with, get_rewritten, limit_input, print_allow, print_rewrite,
    process_claude_payload, CopilotPermission, HookError, HookFormat, HookOutcome, HooksConfig,
    PayloadAction, PermissionVerdict, RegistryAnswer, Reply, STDIN_CAP,
};
use rtk::json::{parse_json, render_json, Json};
use rtk::oneshot::{
    claude_document, cursor_answer, run_claude_inner, run_copilot_vscode_inner, run_cursor_inner,
    run_cursor_inner_with_rules, vscode_document,
};
use rtk::session::{
    advance, begin_claude, begin_copilot, begin_cursor, begin_gemini, HookEvent, HookState,
};
use rtk::text::strip_leading_bom;
use serde_json::{Number, Value};

// A small registry and a small rule book to answer the hooks with.

fn has_heredoc(cmd: &str) -> bool {
    cmd.contains("<<")
}

fn rewrite_segment(segment: &str, excluded: &[String]) -> Option<String> {
    let mut prefix = String::new();
    let mut rest = segment;
    while let Some((word, tail)) = rest.split_once(' ') {
        if !word.contains('=') {
            break;
        }
        prefix.push_str(word);
        prefix.push(' ');
        rest = tail;
    }
    let tool = rest.split(' ').next().unwrap_or("");
    if tool == "rtk" {
        return Some(segment.to_string());
    }
    if ["git", "cargo", "curl"].contains(&tool) && !excluded.iter().any(|e| e == tool) {
        return Some(format!("{}rtk {}", prefix, rest));
    }
    None
}

fn rewrite_command(cmd: &str, excluded: &[String]) -> Option<String> {
    if has_heredoc(cmd) {
        return None;
    }
    let mut known = false;
    let mut parts: Vec<String> = Vec::new();
    for segment in cmd.split(" && ") {
        match rewrite_segment(segment, excluded) {
            Some(rewritten) => {
                known = true;
                parts.push(rewritten);
            }
            None => parts.push(segment.to_string()),
        }
    }
    if known {
        Some(parts.join(" && "))
    } else {
        None
    }
}

fn registry(cmd: &str) -> RegistryAnswer {
    if has_heredoc(cmd) {
        RegistryAnswer::Heredoc
    } else {
        RegistryAnswer::Rewrite(rewrite_command(cmd, &[]))
    }
}

fn check_command_with_rules(
    cmd: &str,
    deny_rules: &[String],
    ask_rules: &[String],
    allow_rules: &[String],
) -> PermissionVerdict {
    let matches = |rules: &[String]| rules.iter().any(|rule| cmd.starts_with(rule.as_str()));
    if matches(deny_rules) {
        PermissionVerdict::Deny
    } else if matches(ask_rules) {
        PermissionVerdict::Ask
    } else if matches(allow_rules) {
        PermissionVerdict::Allow
    } else {
        PermissionVerdict::Ask
    }
}

fn command_in(input: &str) -> String {
    let bare = strip_leading_bom(input);
    match serde_json::from_str::<Value>(bare) {
        Ok(v) => v
            .pointer("/tool_input/command")
            .and_then(|c| c.as_str())
            .unwrap_or("")
            .to_string(),
        Err(_) => String::new(),
    }
}

fn settings(excluded: &[String]) -> Option<HooksConfig> {
    Some(HooksConfig {
        exclude_commands: excluded.to_vec(),
        transparent_prefixes: vec![],
        copilot_permission: CopilotPermission::Ask,
    })
}

fn finish(mut state: HookState, verdict: PermissionVerdict, settled: &[String]) -> HookOutcome {
    loop {
        let event = match &state {
            HookState::AwaitVerdict { .. } => HookEvent::Verdict(verdict),
            HookState::AwaitHeredoc { call, .. } => {
                HookEvent::Heredoc(has_heredoc(&call.command))
            }
            HookState::AwaitConfig { .. } => HookEvent::Config(settings(settled)),
            HookState::AwaitRewrite { call, excluded, .. } => {
                HookEvent::Rewrite(rewrite_command(&call.command, excluded))
            }
            HookState::AwaitPermission { .. } => HookEvent::Config(settings(settled)),
            HookState::Done { .. } => break,
        };
        state = advance(state, event);
    }
    match state {
        HookState::Done { outcome } => outcome,
        _ => unreachable!(),
    }
}

// Building documents.

fn object(members: Vec<(&str, Value)>) -> Value {
    let mut map = serde_json::Map::new();
    for (key, value) in members {
        map.insert(key.to_string(), value);
    }
    Value::Object(map)
}

fn text(s: &str) -> Value {
    Value::String(s.to_string())
}

fn tool_call(tool: &str, cmd: &str) -> Value {
    object(vec![
        ("tool_name", text(tool)),
        ("tool_input", object(vec![("command", text(cmd))])),
    ])
}

fn library_json(v: &Value) -> Json {
    parse_json(&v.to_string()).unwrap()
}

fn vscode_input(tool: &str, cmd: &str) -> Json {
    library_json(&tool_call(tool, cmd))
}

fn copilot_cli_value(cmd: &str) -> Value {
    let args = object(vec![("command", text(cmd))]).to_string();
    object(vec![("toolName", text("bash")), ("toolArgs", text(&args))])
}

fn copilot_cli_input(cmd: &str) -> Json {
    library_json(&copilot_cli_value(cmd))
}

fn claude_input(cmd: &str) -> String {
    tool_call("Bash", cmd).to_string()
}

fn claude_input_with_fields(cmd: &str, timeout: u64, description: &str) -> String {
    object(vec![
        ("tool_name", text("Bash")),
        (
            "tool_input",
            object(vec![
                ("command", text(cmd)),
                ("timeout", Value::Number(Number::from(timeout))),
                ("description", text(description)),
            ]),
        ),
    ])
    .to_string()
}

fn cursor_input(cmd: &str) -> String {
    claude_input(cmd)
}

fn copilot_vscode_input(cmd: &str) -> String {
    tool_call("run_in_terminal", cmd).to_string()
}

// Hook runs with the answers of the registry and the rule book above.

fn rewritten(cmd: &str) -> Option<String> {
    get_rewritten(cmd, registry(cmd))
}

fn claude(input: &str) -> Option<String> {
    run_claude_inner(input, PermissionVerdict::Ask, registry(&command_in(input)))
}

fn cursor(input: &str) -> String {
    run_cursor_inner(input, registry(&command_in(input)))
}

fn vscode(
    input: &str,
    perm: CopilotPermission,
    deny: &[String],
    ask: &[String],
    allow: &[String],
) -> Option<String> {
    let cmd = command_in(input);
    let verdict = check_command_with_rules(&cmd, deny, ask, allow);
    run_copilot_vscode_inner(input, perm, verdict, registry(&cmd))
}

fn gemini(cmd: &str, verdict: PermissionVerdict, excluded: &[String]) -> HookOutcome {
    let input = tool_call("run_shell_command", cmd).to_string();
    finish(begin_gemini(&input).unwrap(), verdict, excluded)
}

fn rewrite_command_no_prefixes(cmd: &str, excluded: &[String]) -> Option<String> {
    let line = gemini(cmd, PermissionVerdict::Ask, excluded).reply.line().unwrap();
    let v: Value = serde_json::from_str(&line).unwrap();
    assert_eq!(v["decision"], "allow");
    v.pointer("/hookSpecificOutput/tool_input/command")
        .and_then(|c| c.as_str())
        .map(|c| c.to_string())
}

// --- Copilot format detection ---

#[test]
fn test_detect_vscode_bash() {
    assert!(matches!(
        detect_format(&vscode_input("Bash", "git status")),
        HookFormat::VsCode { .. }
    ));
}

#[test]
fn test_detect_vscode_run_terminal_command() {
    assert!(matches!(
        detect_format(&vscode_input("runTerminalCommand", "cargo test")),
        HookFormat::VsCode { .. }
    ));
}

#[test]
fn test_detect_vscode_run_in_terminal() {
    assert!(matches!(
        detect_format(&vscode_input("run_in_terminal", "cargo test")),
        HookFormat::VsCode { .. }
    ));
}

#[test]
fn test_detect_copilot_cli_bash() {
    assert!(matches!(
        detect_format(&copilot_cli_input("git status")),
        HookFormat::CopilotCli { .. }
    ));
}

#[test]
fn test_detect_non_bash_is_passthrough() {
    let v = library_json(&object(vec![("tool_name", text("editFiles"))]));
    assert!(matches!(detect_format(&v), HookFormat::PassThrough));
}

#[test]
fn test_detect_unknown_is_passthrough() {
    assert!(matches!(
        detect_format(&library_json(&object(vec![]))),
        HookFormat::PassThrough
    ));
}

#[test]
fn detected_commands() {
    assert_eq!(
        detect_format(&vscode_input("bash", "git status")),
        HookFormat::VsCode { command: "git status".to_string() }
    );
    assert_eq!(
        detect_format(&copilot_cli_input("git status")),
        HookFormat::CopilotCli { command: "git status".to_string() }
    );
    assert_eq!(detect_format(&vscode_input("Bash", "")), HookFormat::PassThrough);
    assert_eq!(detect_format(&copilot_cli_input("")), HookFormat::PassThrough);
}

#[test]
fn detect_vscode_already_rtk_is_passthrough() {
    for tool in ["Bash", "bash", "run_in_terminal", "runTerminalCommand"] {
        assert_eq!(
            detect_format(&vscode_input(tool, "rtk git status")),
            HookFormat::PassThrough
        );
    }
    assert_eq!(detect_format(&vscode_input("Bash", " \trtk")), HookFormat::PassThrough);
    assert_eq!(
        detect_format(&vscode_input("Bash", "rtkx git status")),
        HookFormat::VsCode { command: "rtkx git status".to_string() }
    );
    assert_eq!(
        detect_format(&vscode_input("Bash", "echo rtk")),
        HookFormat::VsCode { command: "echo rtk".to_string() }
    );
}

#[test]
fn detect_copilot_cli_already_rtk_is_passthrough() {
    assert_eq!(
        detect_format(&copilot_cli_input("rtk git status")),
        HookFormat::PassThrough
    );
    assert_eq!(
        detect_format(&copilot_cli_input("git rtk")),
        HookFormat::CopilotCli { command: "git rtk".to_string() }
    );
}

#[test]
fn copilot_asks_nothing_about_rtk_commands() {
    for input in [tool_call("Bash", "rtk git status"), copilot_cli_value("rtk git status")] {
        match begin_copilot(&input.to_string()) {
            HookState::Done { outcome } => {
                assert_eq!(outcome.reply, Reply::Silent);
                assert_eq!(outcome.audit, None);
                assert_eq!(outcome.complaint, None);
            }
            other => panic!("unexpected {:?}", other),
        }
    }
}

#[test]
fn copilot_takes_up_compound_lines_that_begin_with_rtk() {
    let line = "rtk git add . && cargo test";
    assert_eq!(
        detect_format(&vscode_input("Bash", line)),
        HookFormat::VsCode { command: line.to_string() }
    );
    assert_eq!(
        detect_format(&copilot_cli_input(line)),
        HookFormat::CopilotCli { command: line.to_string() }
    );

    let state = begin_copilot(&tool_call("Bash", line).to_string());
    let outcome = finish(state, PermissionVerdict::Ask, &[]);
    let rewritten = "rtk git add . && rtk cargo test";
    assert_eq!(outcome.audit, Some(AuditEntry::new("rewrite", line, rewritten)));
    let reply: Value = serde_json::from_str(&outcome.reply.line().unwrap()).unwrap();
    assert_eq!(reply["hookSpecificOutput"]["updatedInput"]["command"], rewritten);

    let state = begin_copilot(&copilot_cli_value(line).to_string());
    let outcome = finish(state, PermissionVerdict::Deny, &[]);
    assert_eq!(outcome.reply, Reply::Silent);
    let state = begin_copilot(&copilot_cli_value(line).to_string());
    let outcome = finish(state, PermissionVerdict::Allow, &[]);
    assert_eq!(outcome.audit, Some(AuditEntry::new("rewrite", line, rewritten)));
    let reply: Value = serde_json::from_str(&outcome.reply.line().unwrap()).unwrap();
    assert_eq!(reply["permissionDecision"], "deny");
}

#[test]
fn first_words_that_are_rtk() {
    for (cmd, expected) in [
        ("rtk", true),
        (" rtk  git", true),
        ("", false),
        ("  ", false),
        ("RTK git", false),
        ("rtk;ls", false),
        ("rtk git add . && cargo test", false),
        ("rtk git status; cargo test", false),
        ("rtk git log | grep fix", false),
        ("rtk git diff || cargo test", false),
        ("rtk git status\ncargo test", false),
        ("rtk git status &", false),
    ] {
        assert_eq!(already_uses_rtk(cmd), expected, "{:?}", cmd);
    }
}

#[test]
fn snake_case_goes_before_camel_case() {
    let mut v = copilot_cli_value("git status");
    v.as_object_mut().unwrap().insert("tool_name".to_string(), text("editFiles"));
    assert_eq!(detect_format(&library_json(&v)), HookFormat::PassThrough);
}

#[test]
fn tool_args_must_be_json() {
    let v = library_json(&object(vec![
        ("toolName", text("bash")),
        ("toolArgs", text("not json")),
    ]));
    assert_eq!(detect_format(&v), HookFormat::PassThrough);
    assert_eq!(detect_format_with(&v, None), HookFormat::PassThrough);
    let args = library_json(&object(vec![("command", text("ls"))]));
    assert_eq!(
        detect_format_with(&v, Some(args)),
        HookFormat::CopilotCli { command: "ls".to_string() }
    );
}

#[test]
fn test_get_rewritten_supported() {
    assert!(rewritten("git status").is_some());
}

#[test]
fn test_get_rewritten_unsupported() {
    assert!(rewritten("htop").is_none());
}

#[test]
fn test_get_rewritten_already_rtk() {
    assert!(rewritten("rtk git status").is_none());
}

#[test]
fn test_get_rewritten_heredoc() {
    assert!(rewritten("cat <<'EOF'\nhello\nEOF").is_none());
}

#[test]
fn get_rewritten_for_each_answer() {
    assert_eq!(get_rewritten("a", RegistryAnswer::Heredoc), None);
    assert_eq!(get_rewritten("a", RegistryAnswer::Rewrite(None)), None);
    assert_eq!(get_rewritten("a", RegistryAnswer::Rewrite(Some("a".to_string()))), None);
    assert_eq!(
        get_rewritten("a", RegistryAnswer::Rewrite(Some("rtk a".to_string()))),
        Some("rtk a".to_string())
    );
}

// --- Gemini format ---

#[test]
fn test_print_allow_format() {
    let expected = r#"{"decision":"allow"}"#;
    assert_eq!(print_allow().line().unwrap(), expected);
}

#[test]
fn test_print_rewrite_format() {
    let line = print_rewrite("rtk git status").line().unwrap();
    let json: Value = serde_json::from_str(&line).unwrap();
    assert_eq!(json["decision"], "allow");
    assert_eq!(json["hookSpecificOutput"]["tool_input"]["command"], "rtk git status");
}

#[test]
fn test_gemini_hook_uses_rewrite_command() {
    assert_eq!(
        rewrite_command_no_prefixes("git status", &[]),
        Some("rtk git status".into())
    );
    assert_eq!(
        rewrite_command_no_prefixes("cargo test", &[]),
        Some("rtk cargo test".into())
    );
    assert_eq!(
        rewrite_command_no_prefixes("rtk git status", &[]),
        Some("rtk git status".into())
    );
    assert_eq!(rewrite_command_no_prefixes("cat <<EOF", &[]), None);
}

#[test]
fn test_gemini_hook_excluded_commands() {
    let excluded = vec!["curl".to_string()];
    assert_eq!(rewrite_command_no_prefixes("curl https://example.com", &excluded), None);
    assert_eq!(
        rewrite_command_no_prefixes("git status", &excluded),
        Some("rtk git status".into())
    );
}

#[test]
fn test_gemini_hook_env_prefix_preserved() {
    assert_eq!(
        rewrite_command_no_prefixes("RUST_LOG=debug cargo test", &[]),
        Some("RUST_LOG=debug rtk cargo test".into())
    );
}

#[test]
fn gemini_logs_a_proposal_that_repeats_the_command() {
    let outcome = gemini("rtk git status", PermissionVerdict::Ask, &[]);
    assert_eq!(
        outcome.audit,
        Some(AuditEntry::new("rewrite", "rtk git status", "rtk git status"))
    );
    assert_eq!(outcome.complaint, None);
    let reply: Value = serde_json::from_str(&outcome.reply.line().unwrap()).unwrap();
    assert_eq!(reply["hookSpecificOutput"]["tool_input"]["command"], "rtk git status");
}

#[test]
fn gemini_leaves_other_tools_alone() {
    for input in [
        r#"{"tool_name":"read_file","tool_input":{"command":"git status"}}"#,
        r#"{"tool_name":"run_shell_command"}"#,
        r#"{"tool_name":"run_shell_command","tool_input":{"command":""}}"#,
        "{}",
        "[]",
    ] {
        let outcome = finish(begin_gemini(input).unwrap(), PermissionVerdict::Deny, &[]);
        assert_eq!(outcome.reply.line().unwrap(), r#"{"decision":"allow"}"#);
        assert_eq!(outcome.audit, None);
    }
}

#[test]
fn gemini_fails_on_bad_json() {
    match begin_gemini("not json") {
        Err(error) => {
            assert!(matches!(&error, HookError::BadJson(complaint) if !complaint.is_empty()));
            assert_eq!(error.message(), "Failed to parse hook input as JSON");
        }
        Ok(_) => panic!("expected an error"),
    }
    assert!(begin_gemini("").is_err());
}

// --- Native PreToolUse handler ---

#[test]
fn test_claude_rewrite_git_status() {
    let result = claude(&claude_input("git status")).unwrap();
    let v: Value = serde_json::from_str(&result).unwrap();
    let cmd = v
        .pointer("/hookSpecificOutput/updatedInput/command")
        .and_then(|c| c.as_str())
        .unwrap();
    assert_eq!(cmd, "rtk git status");
}

#[test]
fn test_claude_rewrite_preserves_tool_input_fields() {
    let input = claude_input_with_fields("git status", 30000, "Check repo status");
    let result = claude(&input).unwrap();
    let v: Value = serde_json::from_str(&result).unwrap();
    let updated = &v["hookSpecificOutput"]["updatedInput"];
    assert_eq!(updated["command"], "rtk git status");
    assert_eq!(updated["timeout"], 30000);
    assert_eq!(updated["description"], "Check repo status");
}

#[test]
fn test_claude_passthrough_no_output() {
    assert!(claude(&claude_input("htop")).is_none());
}

#[test]
fn test_claude_heredoc_passthrough() {
    assert!(claude(&claude_input("cat <<EOF\nhello\nEOF")).is_none());
}

#[test]
fn test_claude_already_rtk_passthrough() {
    assert!(claude(&claude_input("rtk git status")).is_none());
}

#[test]
fn test_claude_empty_command_passthrough() {
    let input = claude_input("");
    assert!(claude(&input).is_none());
}

#[test]
fn test_claude_malformed_json_passthrough() {
    assert!(claude("not valid json {{{").is_none());
}

#[test]
fn test_claude_env_prefix_preserved() {
    let result = claude(&claude_input("GIT_PAGER=cat git status")).unwrap();
    let v: Value = serde_json::from_str(&result).unwrap();
    let cmd = v
        .pointer("/hookSpecificOutput/updatedInput/command")
        .and_then(|c| c.as_str())
        .unwrap();
    assert_eq!(cmd, "GIT_PAGER=cat rtk git status");
}

#[test]
fn test_claude_compound_command() {
    let result = claude(&claude_input("git add . && cargo test")).unwrap();
    let v: Value = serde_json::from_str(&result).unwrap();
    let cmd = v
        .pointer("/hookSpecificOutput/updatedInput/command")
        .and_then(|c| c.as_str())
        .unwrap();
    assert_eq!(cmd, "rtk git add . && rtk cargo test");
}

#[test]
fn test_claude_json_output_structure() {
    let result = claude(&claude_input("git status")).unwrap();
    let v: Value = serde_json::from_str(&result).unwrap();
    let hook = &v["hookSpecificOutput"];

    assert_eq!(hook["hookEventName"], "PreToolUse");
    assert_eq!(hook["permissionDecisionReason"], "RTK auto-rewrite");
    assert!(hook["updatedInput"].is_object());
    assert!(hook["updatedInput"]["command"].is_string());
    assert!(hook.get("permissionDecision").is_none());
}

#[test]
fn test_claude_no_tool_input_passthrough() {
    let input = object(vec![("tool_name", text("Bash"))]).to_string();
    assert!(claude(&input).is_none());
}

#[test]
fn test_claude_unicode_null_passthrough() {
    let input = claude_input("git status \u{0000}\u{FEFF}");
    let _ = claude(&input);
}

#[test]
fn test_claude_extremely_long_command() {
    let long_cmd = format!("git status {}", "A".repeat(100_000));
    let input = claude_input(&long_cmd);
    let _ = claude(&input);
}

#[test]
fn claude_actions() {
    let v = vscode_input("Bash", "git status");
    assert_eq!(
        process_claude_payload(&v, PermissionVerdict::Deny, Some("rtk git status".to_string())),
        PayloadAction::Skip { reason: "skip:deny_rule", cmd: "git status".to_string() }
    );
    assert_eq!(
        process_claude_payload(&v, PermissionVerdict::Allow, None),
        PayloadAction::Skip { reason: "skip:no_match", cmd: "git status".to_string() }
    );
    assert_eq!(
        process_claude_payload(&Json::Null, PermissionVerdict::Allow, None),
        PayloadAction::Ignore
    );
    match process_claude_payload(&v, PermissionVerdict::Allow, Some("rtk git status".to_string())) {
        PayloadAction::Rewrite { cmd, rewritten, output } => {
            assert_eq!(cmd, "git status");
            assert_eq!(rewritten, "rtk git status");
            assert_eq!(
                render_json(&output),
                "{\"hookSpecificOutput\":{\"hookEventName\":\"PreToolUse\",\
                 \"permissionDecision\":\"allow\",\
                 \"permissionDecisionReason\":\"RTK auto-rewrite\",\
                 \"updatedInput\":{\"command\":\"rtk git status\"}}}"
            );
        }
        other => panic!("unexpected {:?}", other),
    }
}

#[test]
fn claude_keeps_floats_and_nested_members() {
    let input = r#"{"tool_input":{"command":"git status","ratio":0.1,"deep":{"a":[1,null,-7]}}}"#;
    let result = claude(input).unwrap();
    let v: Value = serde_json::from_str(&result).unwrap();
    let updated = &v["hookSpecificOutput"]["updatedInput"];
    assert_eq!(updated["ratio"].as_f64(), Some(0.1));
    assert_eq!(updated["deep"].to_string(), r#"{"a":[1,null,-7]}"#);
    assert_eq!(updated.as_object().unwrap().len(), 3);
}

#[test]
fn the_new_command_is_read_back_whatever_the_fractions() {
    let input = r#"{"tool_input":{"command":"git status","a":1.7976931348623157e308,"b":5e-324,"c":-0.0,"d":1e20,"e":[0.1]}}"#;
    let line = claude(input).unwrap();
    let read = parse_json(&line).unwrap();
    let updated = read.get("hookSpecificOutput").unwrap().get("updatedInput").unwrap();
    assert_eq!(updated.get_str("command"), Some("rtk git status"));
    for key in ["a", "b", "c", "d"] {
        assert!(matches!(updated.get(key), Some(Json::Fraction(_))), "{}", key);
    }
    match updated.get("e") {
        Some(Json::Array(items)) => {
            assert_eq!(items.len(), 1);
            assert!(matches!(&items[0], Json::Fraction(_)));
        }
        other => panic!("unexpected {:?}", other),
    }
}

fn claude_input_nested(levels: usize) -> String {
    let (open, close) = ("[".repeat(levels), "]".repeat(levels));
    format!(r#"{{"tool_input":{{"command":"git status","x":{}{}}}}}"#, open, close)
}

#[test]
fn documents_are_read_back_up_to_the_nesting_limit() {
    let line = claude(&claude_input_nested(124)).unwrap();
    let read = parse_json(&line).unwrap();
    assert_eq!(render_json(&read), line);

    let line = claude(&claude_input_nested(125)).unwrap();
    assert!(parse_json(&line).is_err());
    assert_eq!(claude(&claude_input_nested(126)), None);
}

#[test]
fn entries_of_a_call_keep_to_their_fields() {
    let cmd = "git log | cat\nls";
    for (verdict, action) in [
        (PermissionVerdict::Allow, "rewrite"),
        (PermissionVerdict::Deny, "skip:deny_rule"),
    ] {
        let outcome = finish(begin_claude(&claude_input(cmd)), verdict, &[]);
        let line = audit_line("now", &outcome.audit.unwrap());
        let parts: Vec<&str> = line.split(" | ").collect();
        assert_eq!(parts.len(), 4);
        assert_eq!(parts[1], action);
        assert_eq!(line.lines().count(), 1);
    }
}

#[test]
fn claude_session_outcomes() {
    let input = format!("  {}\n", claude_input("git status"));
    let outcome = finish(begin_claude(&input), PermissionVerdict::Ask, &[]);
    assert_eq!(
        outcome.audit,
        Some(AuditEntry::new("rewrite", "git status", "rtk git status"))
    );
    assert!(matches!(outcome.reply, Reply::Document(_)));

    let denied = finish(begin_claude(&input), PermissionVerdict::Deny, &[]);
    assert_eq!(denied.audit, Some(AuditEntry::new("skip:deny_rule", "git status", "")));
    assert_eq!(denied.reply, Reply::Silent);

    let unknown = finish(begin_claude(&claude_input("htop")), PermissionVerdict::Ask, &[]);
    assert_eq!(unknown.audit, Some(AuditEntry::new("skip:no_match", "htop", "")));
    assert_eq!(unknown.reply.line(), None);

    let heredoc = finish(begin_claude(&claude_input("cat <<EOF")), PermissionVerdict::Ask, &[]);
    assert_eq!(heredoc.audit, Some(AuditEntry::new("skip:no_match", "cat <<EOF", "")));
}

#[test]
fn blank_and_bad_input_for_the_quiet_hooks() {
    for state in [begin_claude(" \n"), begin_copilot(""), begin_claude("{}"), begin_copilot("{}")] {
        let outcome = finish(state, PermissionVerdict::Ask, &[]);
        assert_eq!(outcome.audit, None);
        assert_eq!(outcome.reply, Reply::Silent);
        assert_eq!(outcome.complaint, None);
    }
    for state in [begin_claude("not json {{{"), begin_copilot("not json {{{")] {
        let outcome = finish(state, PermissionVerdict::Ask, &[]);
        assert_eq!(outcome.reply, Reply::Silent);
        assert!(outcome
            .complaint
            .unwrap()
            .starts_with("[rtk hook] Failed to parse JSON input: expected"));
    }
}

// --- Cursor handler ---

#[test]
fn test_cursor_rewrite_flat_format() {
    let result = cursor(&cursor_input("git status"));
    let v: Value = serde_json::from_str(&result).unwrap();
    assert_eq!(v["permission"], "allow");
    assert_eq!(v["updated_input"]["command"], "rtk git status");
    assert!(v.get("hookSpecificOutput").is_none());
    assert_eq!(v["continue"], true);
}

#[test]
fn test_cursor_passthrough_empty_json() {
    let result = cursor(&cursor_input("htop"));
    assert_eq!(result, "{}");
}

#[test]
fn test_cursor_empty_input_empty_json() {
    let result = cursor("");
    assert_eq!(result, "{}");
}

#[test]
fn test_cursor_heredoc_passthrough() {
    let result = cursor(&cursor_input("cat <<EOF\nhello\nEOF"));
    assert_eq!(result, "{}");
}

#[test]
fn test_cursor_already_rtk_passthrough() {
    let result = cursor(&cursor_input("rtk git status"));
    assert_eq!(result, "{}");
}

#[test]
fn test_cursor_no_hook_specific_output() {
    let result = cursor(&cursor_input("cargo test"));
    let v: Value = serde_json::from_str(&result).unwrap();
    assert!(v.get("hookSpecificOutput").is_none());
    assert_eq!(v["permission"], "allow");
    assert_eq!(v["continue"], true);
}

#[test]
fn test_cursor_compound_rewrite_includes_continue() {
    let cmd = "cd \"/tmp/proj\" && git status";
    let result = cursor(&cursor_input(cmd));
    let v: Value = serde_json::from_str(&result).unwrap();
    assert_eq!(v["continue"], true);
    assert_eq!(v["permission"], "allow");
    assert_eq!(v["updated_input"]["command"], "cd \"/tmp/proj\" && rtk git status");
}

#[test]
fn test_cursor_strips_single_utf8_bom() {
    let payload = cursor_input("git status");
    let with_single_bom = format!("\u{feff}{}", payload);
    let result = cursor(&with_single_bom);
    let v: Value = serde_json::from_str(&result).unwrap();
    assert_eq!(v["continue"], true);
    assert_eq!(v["permission"], "allow");
    assert_eq!(v["updated_input"]["command"], "rtk git status");
}

#[test]
fn test_cursor_strips_double_utf8_bom() {
    let payload = cursor_input("git status");
    let with_double_bom = format!("\u{feff}\u{feff}{}", payload);
    let result = cursor(&with_double_bom);
    let v: Value = serde_json::from_str(&result).unwrap();
    assert_eq!(v["continue"], true);
    assert_eq!(v["permission"], "allow");
    assert_eq!(v["updated_input"]["command"], "rtk git status");
}

#[test]
fn test_strip_leading_bom_helper() {
    assert_eq!(strip_leading_bom(""), "");
    assert_eq!(strip_leading_bom("hello"), "hello");
    assert_eq!(strip_leading_bom("\u{feff}hello"), "hello");
    assert_eq!(strip_leading_bom("\u{feff}\u{feff}hello"), "hello");
    assert_eq!(strip_leading_bom("\u{feff}\u{feff}\u{feff}hello"), "hello");
    assert_eq!(strip_leading_bom("a\u{feff}b"), "a\u{feff}b");
}

#[test]
fn cursor_session_outcomes() {
    let input = format!("\u{feff}\u{feff} {}\r\n", cursor_input("git status"));
    let outcome = finish(begin_cursor(&input), PermissionVerdict::Ask, &[]);
    assert_eq!(
        outcome.reply.line().unwrap(),
        "{\"continue\":true,\"permission\":\"allow\",\
         \"updated_input\":{\"command\":\"rtk git status\"}}"
    );
    assert_eq!(
        outcome.audit,
        Some(AuditEntry::new("rewrite", "git status", "rtk git status"))
    );
    let denied = finish(begin_cursor(&input), PermissionVerdict::Deny, &[]);
    assert_eq!(denied.reply, Reply::Literal("{}"));
    assert_eq!(denied.audit, Some(AuditEntry::new("deny", "git status", "")));
    for blank in ["", "\u{feff}", "  \n", "not json", "{}", "{\"tool_input\":[]}"] {
        let outcome = finish(begin_cursor(blank), PermissionVerdict::Ask, &[]);
        assert_eq!(outcome.reply, Reply::Literal("{}"));
        assert_eq!(outcome.audit, None);
    }
    assert_eq!(
        cursor_answer(None, PermissionVerdict::Ask, RegistryAnswer::Heredoc),
        Reply::Literal("{}")
    );
}

// --- Audit logging ---

#[test]
fn test_audit_log_silent_when_disabled() {
    assert!(!audit_enabled(None));
    assert!(!audit_enabled(Some("0")));
    assert!(!audit_enabled(Some("")));
    assert!(audit_enabled(Some("1")));
}

#[test]
fn test_audit_log_format_four_fields() {
    let entry = AuditEntry::new("rewrite", "git status", "rtk git status");
    let content = audit_line("2024-05-06T07:08:09", &entry);
    assert_eq!(content, "2024-05-06T07:08:09 | rewrite | git status | rtk git status");
    let parts: Vec<&str> = content.trim().split(" | ").collect();
    assert_eq!(parts.len(), 4, "Expected 4 pipe-delimited fields, got: {:?}", parts);
    assert_eq!(parts[1], "rewrite");
    assert_eq!(parts[2], "git status");
    assert_eq!(parts[3], "rtk git status");
}

#[test]
fn audit_line_keeps_four_fields_for_hostile_commands() {
    let entry = AuditEntry::new("deny", "a | b\n| c \\", " | \r");
    let line = audit_line("now", &entry);
    assert_eq!(line, "now | deny | a \\| b\\n\\| c \\\\ |  \\| \\r");
    assert_eq!(line.split(" | ").count(), 4);
    assert_eq!(line.lines().count(), 1);
}

#[test]
fn test_audit_log_sanitizes_newlines() {
    let sanitized = sanitize_log_field("git status\nfake | inject | evil");
    assert!(!sanitized.contains('\n'));
    assert!(sanitized.contains("\\n"));
}

#[test]
fn test_audit_log_sanitizes_pipe_delimiter() {
    let sanitized = sanitize_log_field("git log | head");
    assert!(
        !sanitized.contains(" | "),
        "unescaped ' | ' breaks field parsing: {}",
        sanitized
    );
    assert!(sanitized.contains("\\|"));
}

#[test]
fn sanitizing_is_a_chain_of_replacements() {
    for s in ["", "plain", "a\\b", "\\n", "\n\r|\\", "a | b\r\nc", "\u{1f980}|\u{e9}"] {
        let expected = s
            .replace('\\', "\\\\")
            .replace('|', "\\|")
            .replace('\n', "\\n")
            .replace('\r', "\\r");
        assert_eq!(sanitize_log_field(s), expected);
    }
}

// --- Deny rules ---

#[test]
fn test_cursor_deny_blocks_rewrite() {
    let deny = vec!["git status".to_string()];
    let verdict = check_command_with_rules("git status", &deny, &[], &[]);
    assert_eq!(verdict, PermissionVerdict::Deny);
    let result = run_cursor_inner_with_rules(
        &cursor_input("git status"),
        verdict,
        registry("git status"),
    );
    assert_eq!(result, "{}");
}

#[test]
fn test_gemini_deny_blocks_rewrite() {
    let deny = vec!["cargo test".to_string()];
    let verdict = check_command_with_rules("cargo test", &deny, &[], &[]);
    assert_eq!(verdict, PermissionVerdict::Deny);
    assert!(
        rewritten("cargo test").is_some(),
        "cargo test should be rewritable when not denied"
    );
    let outcome = gemini("cargo test", verdict, &[]);
    assert_eq!(
        outcome.reply.line().unwrap(),
        r#"{"decision":"deny","reason":"Blocked by RTK permission rule"}"#
    );
    assert_eq!(outcome.audit, None);
}

#[test]
fn a_denied_call_asks_nothing_more() {
    let inputs = [tool_call("run_in_terminal", "git status"), copilot_cli_value("git status")];
    for input in inputs {
        let state = begin_copilot(&input.to_string());
        assert!(matches!(&state, HookState::AwaitVerdict { .. }));
        match advance(state, HookEvent::Verdict(PermissionVerdict::Deny)) {
            HookState::Done { outcome } => {
                assert_eq!(outcome.reply, Reply::Silent);
                assert_eq!(outcome.audit, Some(AuditEntry::new("deny", "git status", "")));
            }
            other => panic!("unexpected {:?}", other),
        }
    }
}

#[test]
fn an_answer_to_another_question_changes_nothing() {
    let state = begin_cursor(&cursor_input("git status"));
    let state = advance(state, HookEvent::Heredoc(true));
    assert!(matches!(&state, HookState::AwaitVerdict { .. }));
    let state = advance(state, HookEvent::Verdict(PermissionVerdict::Ask));
    let state = advance(state, HookEvent::Config(None));
    assert!(matches!(&state, HookState::AwaitHeredoc { .. }));
    let done = advance(state, HookEvent::Heredoc(true));
    let done = advance(done, HookEvent::Verdict(PermissionVerdict::Deny));
    assert!(matches!(
        done,
        HookState::Done { outcome: HookOutcome { audit: None, reply: Reply::Literal("{}"), .. } }
    ));
}

#[test]
fn the_registry_is_asked_with_the_settings() {
    let waiting = || {
        let state = begin_gemini(&tool_call("run_shell_command", "git status").to_string());
        advance(state.unwrap(), HookEvent::Verdict(PermissionVerdict::Ask))
    };
    let config = HooksConfig {
        exclude_commands: vec!["curl".to_string()],
        transparent_prefixes: vec!["sudo".to_string()],
        copilot_permission: CopilotPermission::Omit,
    };
    match advance(waiting(), HookEvent::Config(Some(config))) {
        HookState::AwaitRewrite { call, excluded, transparent_prefixes, .. } => {
            assert_eq!(call.command, "git status");
            assert_eq!(excluded, vec!["curl".to_string()]);
            assert_eq!(transparent_prefixes, vec!["sudo".to_string()]);
        }
        other => panic!("unexpected {:?}", other),
    }
    match advance(waiting(), HookEvent::Config(None)) {
        HookState::AwaitRewrite { excluded, transparent_prefixes, .. } => {
            assert!(excluded.is_empty());
            assert!(transparent_prefixes.is_empty());
        }
        other => panic!("unexpected {:?}", other),
    }
}

// --- Copilot VS Code handler ---

#[test]
fn test_copilot_vscode_default_omits_permission_decision() {
    let result = vscode(
        &copilot_vscode_input("git status"),
        CopilotPermission::Omit,
        &[],
        &[],
        &[],
    )
    .unwrap();
    let v: Value = serde_json::from_str(&result).unwrap();
    let hook = &v["hookSpecificOutput"];
    assert_eq!(hook["updatedInput"]["command"], "rtk git status");
    assert_eq!(hook["permissionDecisionReason"], "RTK auto-rewrite");
    assert!(
        hook.get("permissionDecision").is_none() || hook["permissionDecision"].is_null(),
        "permissionDecision should be absent when config is Omit"
    );
}

#[test]
fn test_copilot_vscode_config_allow_sets_allow() {
    let result = vscode(
        &copilot_vscode_input("git status"),
        CopilotPermission::Allow,
        &[],
        &[],
        &[],
    )
    .unwrap();
    let v: Value = serde_json::from_str(&result).unwrap();
    let hook = &v["hookSpecificOutput"];
    assert_eq!(hook["permissionDecision"], "allow");
    assert_eq!(hook["updatedInput"]["command"], "rtk git status");
}

#[test]
fn test_copilot_vscode_config_ask_sets_ask() {
    let result = vscode(
        &copilot_vscode_input("git status"),
        CopilotPermission::Ask,
        &[],
        &[],
        &[],
    )
    .unwrap();
    let v: Value = serde_json::from_str(&result).unwrap();
    let hook = &v["hookSpecificOutput"];
    assert_eq!(hook["permissionDecision"], "ask");
    assert_eq!(hook["updatedInput"]["command"], "rtk git status");
}

#[test]
fn test_copilot_vscode_explicit_allow_rule_overrides_config() {
    let allow_rules = vec!["git status".to_string()];
    for perm in [CopilotPermission::Omit, CopilotPermission::Ask] {
        let result = vscode(
            &copilot_vscode_input("git status"),
            perm.clone(),
            &[],
            &[],
            &allow_rules,
        )
        .unwrap();
        let v: Value = serde_json::from_str(&result).unwrap();
        assert_eq!(
            v["hookSpecificOutput"]["permissionDecision"], "allow",
            "Explicit allow rule should override config {:?}", perm
        );
    }
}

#[test]
fn test_copilot_vscode_deny_rule_blocks_rewrite() {
    let deny_rules = vec!["git status".to_string()];
    let result = vscode(
        &copilot_vscode_input("git status"),
        CopilotPermission::Allow,
        &deny_rules,
        &[],
        &[],
    );
    assert!(result.is_none(), "Deny rule should block the rewrite");
}

#[test]
fn test_copilot_vscode_passthrough_unsupported_command() {
    let result = vscode(
        &copilot_vscode_input("htop"),
        CopilotPermission::Allow,
        &[],
        &[],
        &[],
    );
    assert!(result.is_none());
}

#[test]
fn test_copilot_vscode_passthrough_already_rtk() {
    let result = vscode(
        &copilot_vscode_input("rtk git status"),
        CopilotPermission::Allow,
        &[],
        &[],
        &[],
    );
    assert!(result.is_none());
}

#[test]
fn test_copilot_vscode_malformed_json() {
    let result = vscode("not json {{{", CopilotPermission::Omit, &[], &[], &[]);
    assert!(result.is_none());
}

#[test]
fn test_copilot_vscode_empty_command() {
    let input = copilot_vscode_input("");
    let result = vscode(&input, CopilotPermission::Allow, &[], &[], &[]);
    assert!(result.is_none());
}

#[test]
fn test_copilot_vscode_output_structure() {
    let result = vscode(
        &copilot_vscode_input("cargo test"),
        CopilotPermission::Omit,
        &[],
        &[],
        &[],
    )
    .unwrap();
    let v: Value = serde_json::from_str(&result).unwrap();
    let hook = &v["hookSpecificOutput"];
    assert_eq!(hook["hookEventName"], "PreToolUse");
    assert_eq!(hook["permissionDecisionReason"], "RTK auto-rewrite");
    assert!(hook["updatedInput"].is_object());
    assert!(hook["updatedInput"]["command"].as_str().unwrap().starts_with("rtk "));
}

#[test]
fn copilot_sessions() {
    let vscode = begin_copilot(&copilot_vscode_input("git status"));
    let outcome = finish(vscode, PermissionVerdict::Ask, &[]);
    let v: Value = serde_json::from_str(&outcome.reply.line().unwrap()).unwrap();
    assert_eq!(v["hookSpecificOutput"]["permissionDecision"], "ask");
    assert_eq!(v["hookSpecificOutput"]["updatedInput"]["command"], "rtk git status");

    let cli = begin_copilot(&copilot_cli_value("git status").to_string());
    let outcome = finish(cli, PermissionVerdict::Allow, &[]);
    let v: Value = serde_json::from_str(&outcome.reply.line().unwrap()).unwrap();
    assert_eq!(v["permissionDecision"], "deny");
    assert_eq!(
        v["permissionDecisionReason"],
        "Token savings: use `rtk git status` instead (rtk saves 60-90% tokens)"
    );
    assert_eq!(
        outcome.audit,
        Some(AuditEntry::new("rewrite", "git status", "rtk git status"))
    );

    for cmd in ["htop", "rtk git status", "cat <<EOF"] {
        let outcome = finish(
            begin_copilot(&copilot_cli_value(cmd).to_string()),
            PermissionVerdict::Allow,
            &[],
        );
        assert_eq!(outcome.reply, Reply::Silent);
        assert_eq!(outcome.audit, None);
    }
}

#[test]
fn documents_in_one_step() {
    let v = || Some(vscode_input("Bash", "ls"));
    let answer = || RegistryAnswer::Rewrite(Some("rtk ls".to_string()));
    let document =
        vscode_document(v(), CopilotPermission::Omit, PermissionVerdict::Ask, answer()).unwrap();
    assert_eq!(
        render_json(&document),
        "{\"hookSpecificOutput\":{\"hookEventName\":\"PreToolUse\",\
         \"permissionDecisionReason\":\"RTK auto-rewrite\",\
         \"updatedInput\":{\"command\":\"rtk ls\"}}}"
    );
    let document = claude_document(v(), PermissionVerdict::Ask, answer()).unwrap();
    assert_eq!(
        document.get("hookSpecificOutput").unwrap().get_str("hookEventName"),
        Some("PreToolUse")
    );
    assert!(claude_document(None, PermissionVerdict::Ask, answer()).is_none());
}

// --- Input and settings ---

#[test]
fn input_is_limited_by_bytes() {
    let most = "a".repeat(STDIN_CAP);
    assert_eq!(limit_input(most.clone()), Ok(most));
    assert_eq!(limit_input("a".repeat(STDIN_CAP + 1)), Err(HookError::InputTooLong));
    assert_eq!(limit_input("\u{e9}".repeat(STDIN_CAP / 2 + 1)), Err(HookError::InputTooLong));
    assert_eq!(
        HookError::InputTooLong.message(),
        format!("hook stdin exceeds {} byte limit", STDIN_CAP)
    );
}

#[test]
fn settings_default_to_nothing() {
    let config = HooksConfig::or_default(None);
    assert!(config.exclude_commands.is_empty());
    assert!(config.transparent_prefixes.is_empty());
    assert_eq!(config.copilot_permission, CopilotPermission::Omit);
    let loaded = HooksConfig {
        exclude_commands: vec!["curl".to_string()],
        transparent_prefixes: vec![],
        copilot_permission: CopilotPermission::Ask,
    };
    assert_eq!(HooksConfig::or_default(Some(loaded)).exclude_commands, vec!["curl".to_string()]);
}

// --- Documents ---

#[test]
fn fixed_replies_are_json() {
    let deny = gemini("ls", PermissionVerdict::Deny, &[]).reply.line().unwrap();
    for line in [deny, print_allow().line().unwrap(), cursor("")] {
        assert!(serde_json::from_str::<Value>(&line).unwrap().is_object());
        assert_eq!(line.lines().count(), 1);
    }
}

#[test]
fn replies_are_single_lines_that_read_back() {
    let cmd = "git log \"a\nb\" \u{2028} \\ \u{7}";
    let line = print_rewrite(cmd).line().unwrap();
    assert!(!line.contains('\n'));
    let v: Value = serde_json::from_str(&line).unwrap();
    assert_eq!(v["hookSpecificOutput"]["tool_input"]["command"], cmd);
}

#[test]
fn numbers_of_documents() {
    let document = parse_json("[0,18446744073709551615,-9223372036854775808,0.5]").unwrap();
    match &document {
        Json::Array(items) => {
            assert_eq!(items[0], Json::Unsigned(0));
            assert_eq!(items[1], Json::Unsigned(u64::MAX));
            assert_eq!(items[2], Json::Signed(i64::MIN));
            assert!(matches!(&items[3], Json::Fraction(_)));
        }
        other => panic!("unexpected {:?}", other),
    }
    assert_eq!(
        render_json(&document),
        "[0,18446744073709551615,-9223372036854775808,0.5]"
    );
    assert_eq!(render_json(&document.clone()), render_json(&document));
}

#[test]
fn json_round_trip() {
    let source = r#"{"a":[true,false,null],"b":{"c":"\u0000\"\\ é"},"d":"x"}"#;
    let document = parse_json(source).unwrap();
    let line = render_json(&document);
    assert_eq!(parse_json(&line).unwrap(), document);
    assert_eq!(document.get("d").and_then(|d| d.as_str()), Some("x"));
    assert_eq!(document.get_str("a"), None);
    assert!(document.get("missing").is_none());
    assert_eq!(document.clone(), document);
    assert!(parse_json("{").is_err());
}

#[test]
fn json_members() {
    let mut document = Json::empty_object();
    document.set("k", Json::text("one"));
    document.set("l", Json::Bool(true));
    document.set("k", Json::text("two"));
    assert_eq!(document.get_str("k"), Some("two"));
    assert_eq!(render_json(&document), r#"{"k":"two","l":true}"#);
    let mut other = Json::text("no object");
    other.set("k", Json::Null);
    assert_eq!(other, Json::text("no object"));
    let doubled = Json::Object(vec![
        ("k".to_string(), Json::text("first")),
        ("k".to_string(), Json::text("second")),
    ]);
    assert_eq!(doubled.get_str("k"), Some("second"));
    assert_eq!(render_json(&doubled), r#"{"k":"second"}"#);
    let nested = Json::Array(vec![doubled, Json::Null, Json::Array(vec![])]);
    assert_eq!(render_json(&nested), r#"[{"k":"second"},null,[]]"#);
}
