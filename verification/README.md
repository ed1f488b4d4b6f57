# revd

Detect what a project is written in (Go, TypeScript, Python, Rust, Java), then
set up the checks those languages deserve — linters, secret scanning,
dependency audits and a pre-commit hook — in one command; and review what gets
committed with a small set of built-in heuristics.

The library is written in Verus: its behaviour is stated in `requires` /
`ensures` contracts and proved.

## Layout

- `src/` — the verified library.
  - `lang` detects languages from a listing of the project's entries.
  - `tools` holds the tool registry and picks the tools for a set of languages.
  - `plan` turns a survey of the project into a plan, and a plan into the
    files to write; `hooks` does the same for the pre-commit hook.
  - `guarantees` proves what `init` promises: it never overwrites a config,
    leaves a hook it did not write alone unless forced, and a second run
    writes nothing; planning is deterministic.
  - `report` and `ui` render the terminal output as strings.
  - `analyze` (with `tier1`), `taxonomy`, `surface`, `store`, `daemon`,
    `hook` and `install` hold the commit-review logic: findings, their ids
    and categories, when to notify, and what the hooks and the worker decide.
  - `text` and `git` are the string and path helpers the rest is built on.
- `app/` — the program around the library: the command line, reading the
  file system and git, running tools, writing files, SQLite and the socket.
- `tests/` — tests of the library on concrete inputs.

Outside crates the library calls: `sha2` (finding ids), `regex` (the
heuristics' patterns) and `chrono` (timestamp text), each behind one small
trusted wrapper whose contract says what is assumed of it; the system clock
is read through one more, which promises only that the nanoseconds are below
a billion. A clock that reads before 1970 gives no timestamp rather than a
panic.
