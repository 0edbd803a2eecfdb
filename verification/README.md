# hummingbird

A terminal coding assistant: an agent that asks a language model for the next step, runs
the tools the model calls (reading, writing, listing and searching files, running shell
commands), and feeds their results back until the model answers.

The library under `src/` holds the assistant's logic with its specifications and their
proofs: the command line, the agent's decision loop, tool-call parsing, tool policies and
reports, edit planning, diffs and overlap checks, context selection, configuration merging,
request budgeting, retries, rate limiting, session identifiers and listings, and the text
of the terminal screens. `app/` is the program around it: the HTTP clients of the model
providers, file and process work, the terminal, and the configuration and session files.

Layout of `src/`:

- `text` — character-level string helpers, numbers, sorting of strings
- `json` — JSON values and field lookups
- `error` — the error type and its messages
- `history`, `agent` — the conversation and the agent loop
- `inference`, `providers` — requests, token budgets, retries, rate limiting, provider replies
- `tools` — the built-in tools' parameters, policies and reports
- `forge` — line-range edits, diffs, ordering and overlap checks
- `patterns`, `context` — globs and regular expressions; choosing the context files
- `config`, `session`, `cli`, `repl`, `runner`, `tui` — settings, saved sessions, the command
  line, the interactive session, one-shot runs, and the screens
