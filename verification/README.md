# llm-access-store

Storage-side logic of an LLM access gateway, verified with Verus: the SQL
text and bound parameters of the DuckDB usage analytics tables, usage
metrics aggregation and rankings, per-key rollup deltas, tiered segment
bookkeeping (active, pending, compacting and archive files, rollover and
retention), the archive catalog with its per-key and per-field rollups,
detail packs of heavyweight request payloads, read-path page planning,
usage charts, decoding stored usage events, the control-plane records and
scoping rules, Codex route candidates, and the admin and routing views of
Kiro accounts with the request-cache plan for them.

Layout:

- `src/` — the verified library. Each module states its behaviour over
  mathematical models (`Seq`, `Map`, `int`) and proves it; the laws that
  relate several operations are public proof functions next to them.
  Hashing (`sha2`), gzip (`flate2`), calendar dates (`chrono`), JSON
  objects (`serde_json`) and the system clock are reached through small trusted wrappers whose contracts
  say what those crates document.
- `tests/` — executable tests of the library.
- `app/` — the command-line retention pass over tiered storage on disk: it
  reads and writes the catalog file and removes the files and directories
  that the library decides are expired. `app/floats.rs` holds the
  floating-point reporting parts (credit totals, metric averages and the
  rankings ordered by them), derived from the library's exact results.
