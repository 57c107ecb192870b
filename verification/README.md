# arc

The decision-making core of a pipeline runner for AI workflows, written in
Verus: each public function states its result in its contract and is proved
against it.

## Layout

- `src/` — the verified library
  - `text` — character-sequence specifications (prefixes, trimming, lines,
    joining, decimal text, replacement) and proved string helpers
  - `graph`, `reach`, `validation` — the pipeline graph, reachability, and
    the built-in lint rules
  - `v4a_patch` — reading v4a patches and applying their hunks
  - `context`, `preamble`, `transform`, `codergen`, `keys` — run context,
    stage preambles, graph transforms, stage prompts and outcomes
  - `doctor`, `style`, `report`, `event`, `workflow_event`, `durations` — the
    setup checks and their report, terminal styling, diagnostic and event text
  - `runs`, `cp`, `sandbox`, `paths`, `artifact`, `backend` — run scanning and
    selection, copy planning, sandbox records, the artifact index
  - `retro` — a run's retrospective: its stage entries and totals, and the
    stage durations of a progress log
  - `hook` — the decision of a hook command from its exit status
- `tests/` — tests of the library on concrete values
- `app/` — the command-line program: arguments, files, JSON, terminal
  output, and what goes through floating point

The library calls `serde_json` (reading JSON and the text of JSON values)
and `indicatif` (byte counts) and otherwise `std`; `app/` uses `clap`, `serde`, `serde_json`, `anyhow`, `dirs`,
`chrono`, `tokio`, `async-trait` and `tracing`.

## Not in this crate

These parts of the pipeline runner are not here, because what they are
built on is not part of this code base:

- running pipelines (`run`), validating `.dot` files (`validate`) and the
  HTTP server (`serve`): the DOT parser, the engine, the handler registry and
  the server configuration;
- the prompt and wait handlers, the recording interviewer and the stylesheet
  transform: the workflow graph, outcome, interviewer and stylesheet modules;
- running hook commands: the hook definition and context types (the
  decision from an exit status is in `hook`);
- the error text of a failed patch with numbered, truncated file contents:
  the numbering and truncation helpers;
- the LLM, API, web and GitHub App checks of `doctor`, and its live probes:
  the provider list, the server configuration and the network clients (the
  checks themselves are in `doctor`).
