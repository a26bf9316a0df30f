# pi_coding_agent

The decision logic of the `pi` coding-agent command line, written in Verus:
every function in `src/` carries a contract that Verus proves.

- `src/` — the verified library: package specs and the package registry,
  installer plans, skill and prompt-template discovery and expansion, the
  system prompt, key bindings, scoped models, print-mode and startup
  decisions, the JSON-RPC frame checks, the RPC server's turn state
  machine and the JSON objects an agent event becomes, provider key
  resolution and the interactive-mode text helpers.
  Laws that span several functions are public proof functions named
  `law_*`.
- `tests/` — tests run against the compiled library with the real outside
  crates linked.
- `app/` — the program around the library: argument handling, the
  package subcommands (`install`, `remove`, `list`, `version`,
  `list-models`, `update-models`) with their file and process I/O, and
  the serde copies of the library types that are stored as JSON. The interactive, print and RPC
  modes need the agent, terminal and session crates, which this build does
  not include; the program reports that and exits.

The library never touches the filesystem or a process: reading files,
walking directories and running `npm` / `git` are the caller's job, and
the library is handed their results as plain values.
