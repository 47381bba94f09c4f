# monotools

The core of a desktop launcher for Windows, written in Verus: every
function in `src/` carries a contract that the verifier proves.

## Layout

- `src/` — the library.
  - `search_engine/` — the application index (prefix tree, cache of
    applications, what a scan makes of each file found, the full listing
    order, how a query matches an application), the file index (full-text
    query, result types, skipped paths, batching and planning of NTFS
    updates), the pieces of merging results from several sources
    (per-source limits, duplicates, default actions, fuzzy match scores;
    the floating-point ranking is the caller's), pinned results and the
    search commands.
  - `platform/` — reading NTFS change-journal buffers into records and
    directory paths, hotkey parsing, special shell shortcuts, the icon
    cache, start-up entries in the registry and the start-up folders, and
    the shell commands.
  - `recommend/` — launch statistics, feedback and the rule engine's score
    factors.
  - `pybridge/` — the state of the Python helper process: start/stop,
    request identifiers, registered services.
  - `plugins/` — manifests, permission checks, the plugin manager and the
    plugin registry.
  - `repositories/` — in-memory settings, statistics and start-up stores,
    and the commands that read and change them.
  - `text.rs`, `paths.rs`, `keyed.rs` — shared helpers on strings, Windows
    paths and keyed lists.
- `tests/` — tests run against the compiled library.
- `app/` — the desktop glue that the library leaves to its caller: file
  system walks, processes, the registry tool, serialisable copies of the
  records, and the floating-point scores.

Calls into other crates (`png`, `fuzzy-matcher`, `uuid`, `chrono`,
`serde_json`) go through small trusted wrappers whose contracts state what
those crates document.
