# vikunja-rust-mcp

A Model Context Protocol server for the Vikunja task manager, with its
core verified by Verus.

## Layout

- `src/` — the verified library. Its functions carry `requires` /
  `ensures` contracts that Verus proves, except the small trusted
  wrappers around outside calls (below), whose contracts are assumed:
  - `config` — settings validation (URL, token, timeouts, page size, times
    of day, HTTP authentication rules).
  - `dates` — the date-shortcut grammar (`tomorrow`, `next friday`,
    `in 2 weeks`, `end of week`, ...) resolved to a calendar day and time.
  - `error` — error values, their messages and their mapping onto MCP
    errors.
  - `sandbox` — the attachment path sandbox.
  - `metrics` — the Prometheus registry and its exposition text.
  - `http` — host allow-listing and constant-time token comparison.
  - `vikunja` — pagination, request retries, bounded downloads,
    read-merge-write updates and saved-filter merging.
  - `mcp` — tool argument validation, list plans, bulk results, upload and
    download decisions, reminders, and the read-only resources.
  - `transfer` — Markdown and CSV backlog import parsers, the
    deterministic exporters, and what parsing gives back of an exported
    checklist.
- `tests/` — tests of the library on concrete values.
- `app/` — the executable: command line, HTTP and MCP plumbing, the
  `reqwest` client, the serde models and the JSON exports. It performs the
  I/O and hands the decisions to the library.

Calls into `chrono`, `base64`, `url` and a few `std` functions (paths on
disk, lower-casing, lossy UTF-8 decoding, `Debug` quoting) are made from
the library through small trusted wrappers (`#[verifier::external_body]`).
Verus does not prove their contracts: it assumes them, and each states only
what the called crate's source or documentation shows.
