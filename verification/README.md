# localcode

A local, on-device coding agent: it starts (or attaches to) a `llama-server`
on the user's machine, gives the model file, search and shell tools jailed to
the workspace, and asks before anything changes.

## Layout

- `src/` — the library, verified with Verus. It holds the agent's turn state
  machine (every tool call answered in order, nudges and loop guards, the turn
  limit), the permission policy, the workspace jail, the fail-loud edit, the
  tool-call parser, the SSE stream reassembly, the answers every tool gives,
  the slash commands, the plan-then-edit flow, server installation planning and
  the rest of the decisions the program makes. Calls into `serde_json`,
  `regex`, `scraper`, `similar`, `urlencoding` and `dirs` stand behind small
  trusted wrappers whose contracts say what those crates do. `loop_laws.rs`
  states the properties that span the agent's steps.
- `tests/` — the test suite, run against the compiled library.
- `app/` — the program: argument parsing, HTTP, processes, the file system,
  SQLite sessions, the terminal front ends and the model registry (whose sizes
  are fractional gigabytes).
