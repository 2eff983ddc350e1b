# history_viewer

The Codex provider and the session search of a conversation-history viewer,
written as a Verus library: the logic is verified, the file system stays
outside.

## Layout

- `src/` — the verified library.
  - `json.rs` — a JSON tree (`JsonValue`) with a mathematical view, and the
    parsers and printer of `serde_json` / `simd-json` behind trusted wrappers.
  - `text.rs`, `lines.rs` — characters, trimming, searching in text, and the
    lines of a JSON Lines file.
  - `sort.rs` — the stable newest-first order (`top_indices`), with proofs that
    the order exists, is unique, and keeps equal keys in place.
  - `models.rs` — messages, sessions, projects.
  - `codex/` — reading Codex rollout files: converting items and events into
    messages (`convert`, `events`, `rollout`), session summaries (`titles`,
    `session_info`), thread titles (`threads`), guardian and git-commit worker
    detection (`classify`), the session index with its cache, project lists and
    filters (`index`; the filters read each session file's leading lines when
    they filter, through a reader the caller hands in), searching (`search`), and laws that span them (`laws`).
  - `search.rs` — matching a query (aho-corasick) inside message content by
    scope, validating and applying search filters, and searching conversation
    log files.
  - `search_cache.rs` — recent search results in an LRU cache (`lru`), stamped
    with the generation of the session files; a change of the files starts a
    new generation and older results are no longer given back.
- `app/` — ordinary Rust around the library: reading the Codex home and the log
  files from disk, the process-wide caches, and serializable copies of the
  library's types.
- `tests/` — tests of the library on concrete inputs.
