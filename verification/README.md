# rtk

Decisions of the `rtk` agent hooks and of its Poe task runner, verified with Verus.

A coding agent calls a hook before it runs a shell command. The hook checks the command against
permission rules, looks for a filtered form of it in a registry, and tells the agent in the
agent's own JSON dialect what to run. The Poe runner takes a task of `pyproject.toml` apart into
commands and runs them until one fails.

- `src/text.rs`: byte order marks, white space, words.
- `src/json.rs`, `src/pyproject.rs`, `src/entries.rs`: documents; `serde_json` and `toml` read
  and write the text.
- `src/audit.rs`: the audit log and what makes its lines unambiguous.
- `src/hook.rs`: what each agent is told for given answers of rules, registry and settings.
- `src/session.rs`: a hook call as a machine that asks for those answers one by one.
- `src/oneshot.rs`: a hook call in one step.
- `src/laws.rs`: what holds of every hook call.
- `src/poe.rs`: a task run as a machine, and what it does as a whole.
- `app/`: input, output, files and processes around the library.
