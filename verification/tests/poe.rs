use rtk::poe::{
    exit_code, find_tasks, full_command, notice_launch, plan_task, read_pyproject,
    registry_question, run_cmd_string, task_and_arguments, Launch, Plan, PoeError, PoeRun, PoeStep,
    RegistryQuestion,
};
use rtk::pyproject::{parse_toml, Toml};

fn sample_tasks() -> Toml {
    let toml_str = r#"
[ruff-format-check]
cmd = "ruff format --check src"

[ruff-check]
cmd = "ruff check src"

[mypy]
cmd = "mypy src"

[lint]
sequence = ["ruff-format-check", "ruff-check", "mypy"]
"#;
    parse_toml(toml_str).unwrap()
}

fn strings(list: &[&str]) -> Vec<String> {
    list.iter().map(|s| s.to_string()).collect()
}

/// Runs a task with a fixed exit code per command; returns the commands and the end.
fn run(
    tasks: &Toml,
    name: &str,
    extra: &[&str],
    codes: &dyn Fn(&str) -> i32,
) -> (Vec<String>, Result<i32, PoeError>) {
    let mut run = PoeRun::run_task(name, strings(extra), tasks);
    let mut commands: Vec<String> = Vec::new();
    let mut code: i32 = 0;
    loop {
        match run.step(code) {
            PoeStep::Announce { .. } => code = 0,
            PoeStep::Run { command } => {
                code = codes(&command);
                commands.push(command);
            }
            PoeStep::Finish { code } => return (commands, Ok(code)),
            PoeStep::Fail { error } => return (commands, Err(error)),
        }
    }
}

#[test]
fn test_resolve_cmd_task() {
    let tasks = sample_tasks();
    let task = tasks.get("ruff-check").unwrap();
    let cmd = task.get("cmd").and_then(|c| c.as_str()).unwrap();
    assert_eq!(cmd, "ruff check src");
}

#[test]
fn test_resolve_sequence_task() {
    let tasks = sample_tasks();
    match plan_task("lint", &tasks) {
        Plan::Sequence(seq) => {
            let names: Vec<&str> = seq.iter().map(|v| v.as_str().unwrap()).collect();
            assert_eq!(names, vec!["ruff-format-check", "ruff-check", "mypy"]);
        }
        _ => panic!("expected a sequence"),
    }
}

#[test]
fn test_missing_task_returns_error() {
    let tasks = sample_tasks();
    let (commands, result) = run(&tasks, "nonexistent", &[], &|_| 0);
    assert!(commands.is_empty());
    assert!(result.is_err());
    assert!(result.unwrap_err().message().contains("not found"));
}

#[test]
fn test_inline_string_task() {
    let toml_str = r#"
hello = "echo hello"
"#;
    let tasks = parse_toml(toml_str).unwrap();
    let task = tasks.get("hello").unwrap();
    let cmd = task.as_str().unwrap();
    assert_eq!(cmd, "echo hello");
    let (commands, result) = run(&tasks, "hello", &[], &|_| 0);
    assert_eq!(commands, strings(&["echo hello"]));
    assert_eq!(result, Ok(0));
}

#[test]
fn a_sequence_runs_in_order() {
    let tasks = sample_tasks();
    let (commands, result) = run(&tasks, "lint", &["ignored"], &|_| 0);
    assert_eq!(
        commands,
        strings(&["ruff format --check src", "ruff check src", "mypy src"])
    );
    assert_eq!(result, Ok(0));
}

#[test]
fn a_sequence_stops_at_the_first_failure() {
    let tasks = sample_tasks();
    let (commands, result) =
        run(&tasks, "lint", &[], &|c| if c == "ruff check src" { 3 } else { 0 });
    assert_eq!(commands, strings(&["ruff format --check src", "ruff check src"]));
    assert_eq!(result, Ok(3));
}

#[test]
fn extra_arguments_go_to_the_command() {
    let tasks = sample_tasks();
    let (commands, result) = run(&tasks, "mypy", &["--strict", "a b"], &|_| 2);
    assert_eq!(commands, strings(&["mypy src --strict a b"]));
    assert_eq!(result, Ok(2));
    assert_eq!(full_command("x", &vec![]), "x");
}

#[test]
fn sequences_nest_and_errors_come_late() {
    let tasks = parse_toml(
        r#"
a = "one"
b = { sequence = ["a", "c"] }
c = { cmd = "two" }
d = { sequence = ["b", 7, "a"] }
e = { sequence = ["a", "missing"] }
f = { sequence = [] }
g = { sequence = ["f", "f", "c"] }
h = { shell = "no" }
i = { cmd = 1 }
j = 5
k = { sequence = "a", cmd = "three" }
"#,
    )
    .unwrap();
    let ok = |_: &str| 0;
    assert_eq!(run(&tasks, "b", &[], &ok), (strings(&["one", "two"]), Ok(0)));
    assert_eq!(
        run(&tasks, "d", &[], &ok),
        (strings(&["one", "two"]), Err(PoeError::ItemNotText))
    );
    assert_eq!(
        run(&tasks, "e", &[], &ok),
        (strings(&["one"]), Err(PoeError::TaskNotFound("missing".to_string())))
    );
    assert_eq!(run(&tasks, "f", &[], &ok), (vec![], Ok(0)));
    assert_eq!(run(&tasks, "g", &[], &ok), (strings(&["two"]), Ok(0)));
    for name in ["h", "i", "j"] {
        assert_eq!(
            run(&tasks, name, &[], &ok),
            (vec![], Err(PoeError::Unsupported(name.to_string())))
        );
    }
    assert_eq!(run(&tasks, "k", &[], &ok), (strings(&["three"]), Ok(0)));
}

#[test]
fn tasks_of_a_pyproject() {
    let document = read_pyproject("[tool.poe.tasks]\nt = \"x\"\n").unwrap();
    assert_eq!(find_tasks(&document).unwrap().get("t").and_then(|t| t.as_str()), Some("x"));
    let document = read_pyproject("[tool.poe]\n").unwrap();
    assert_eq!(find_tasks(&document).unwrap_err(), PoeError::NoTasks);
    let error = read_pyproject("= broken").unwrap_err();
    assert!(matches!(&error, PoeError::BadToml(complaint) if complaint.contains("TOML")));
    assert_eq!(error.message(), "Failed to parse pyproject.toml");
}

#[test]
fn arguments_of_a_call() {
    assert_eq!(task_and_arguments(&[]), Err(PoeError::Usage));
    assert_eq!(
        task_and_arguments(&strings(&["lint", "-v", "x"])),
        Ok(("lint".to_string(), strings(&["-v", "x"])))
    );
    assert_eq!(task_and_arguments(&strings(&["t"])), Ok(("t".to_string(), vec![])));
}

#[test]
fn launches() {
    assert_eq!(
        run_cmd_string("  git  status\t-s ", true),
        Ok(Launch::Rtk { args: strings(&["git", "status", "-s"]) })
    );
    assert_eq!(
        run_cmd_string(" echo hello world", false),
        Ok(Launch::Passthrough {
            tool: "echo".to_string(),
            args: strings(&["hello", "world"])
        })
    );
    assert_eq!(run_cmd_string(" \t\n", true), Err(PoeError::EmptyCommand));
    assert_eq!(
        registry_question("  git status "),
        Ok(RegistryQuestion {
            command: "git status".to_string(),
            excluded: vec![],
            transparent_prefixes: vec![],
        })
    );
    assert_eq!(registry_question(""), Err(PoeError::EmptyCommand));
}

#[test]
fn exit_codes() {
    assert_eq!(exit_code(Some(0)), 0);
    assert_eq!(exit_code(Some(-4)), -4);
    assert_eq!(exit_code(None), 1);
}

#[test]
fn notices() {
    let announce = PoeStep::Announce { name: "lint".to_string() };
    assert_eq!(announce.notice(1), Some("poe: running sub-task 'lint'".to_string()));
    assert_eq!(announce.notice(0), None);
    let command = PoeStep::Run { command: "ruff check".to_string() };
    assert_eq!(command.notice(2), Some("poe: ruff check".to_string()));
    assert_eq!(PoeStep::Finish { code: 0 }.notice(1), None);
    assert_eq!(
        notice_launch(" a b ", true, 1),
        Some("poe: routing through rtk: a b".to_string())
    );
    assert_eq!(
        notice_launch(" a b ", false, 1),
        Some("poe: no RTK filter for command (running passthrough): a b".to_string())
    );
    assert_eq!(notice_launch("a", true, 0), None);
}

#[test]
fn error_messages() {
    assert_eq!(PoeError::Usage.message(), "Usage: rtk poe <task> [args...]");
    assert_eq!(
        PoeError::NoPyproject.message(),
        "No pyproject.toml found in current directory"
    );
    assert_eq!(
        PoeError::NoTasks.message(),
        "No [tool.poe.tasks] section found in pyproject.toml"
    );
    assert_eq!(
        PoeError::TaskNotFound("x".to_string()).message(),
        "Poe task 'x' not found in pyproject.toml"
    );
    assert_eq!(PoeError::ItemNotText.message(), "Sequence items must be strings");
    assert_eq!(
        PoeError::Unsupported("x".to_string()).message(),
        "Task 'x': only cmd and sequence tasks are supported (ref/script/shell not supported)"
    );
    assert_eq!(PoeError::EmptyCommand.message(), "Empty command in poe task");
}
