# apiari

The rules of the apiari daemon as a verified library, and the program around
it. A workspace has bees (bots), workers that write code in git worktrees,
watchers that raise signals, documents, and a web interface on all of it.

- `src/` is the library, verified with Verus. Each module holds one part of the
  daemon: what arrives, what is decided, what is to be done, as plain values.
- `app/` is the program: the command line, sockets, the web server, git, tmux
  and files. It performs what the library decides.
- `tests/` runs the library.

Modules by subject:

| Subject | Modules |
| --- | --- |
| Values and texts | `text`, `json`, `toml_doc`, `time`, `textmap`, `order` |
| The daemon | `action`, `commands`, `coordinator`, `notify`, `poll`, `process`, `routing` |
| Signals and briefs | `signal`, `briefing`, `morning_brief` |
| Workers | `worker`, `worker_manager`, `worker_view`, `worker_events`, `worker_actions` |
| Tasks and workflows | `task`, `workflow`, `workflow_run` |
| Bots | `config`, `bees`, `bots`, `auto_bots`, `context_bot`, `conversations`, `followups` |
| The workspace | `docs`, `repos`, `git_safety`, `shells`, `doctor`, `init`, `widgets`, `web` |
| Tools for workers | `mcp` |

JSON is parsed and printed by `serde_json`, TOML documents are changed with
`toml_edit`, and times are written and read with `chrono` and `chrono_tz`. What
the library takes from them stands in the contracts of a few small functions in
`json`, `toml_doc` and `time`, with a comment on each; what it takes of that
kind from the standard library stands in `text`, `docs` and `mcp`.

The program takes the agent that works where none is named, its model, the role
of those who inspect work and the word with which they ask for changes from the
environment: `APIARI_AGENT`, `APIARI_MODEL`, `APIARI_REVIEW_ROLE` and
`APIARI_CHANGES_WORD`.
