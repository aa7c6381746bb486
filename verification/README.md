# b3_local

The local, offline parts of the B3 code-intelligence tools, written in Verus
and proved against their contracts:

- `setup`: the `b3` command line (`setup::cli`), the Codex TOML and Cursor
  JSON config edits (`setup::codex`, `setup::cursor`, and `setup::json_text`,
  which reads and writes the Cursor config text through serde_json), and the reports of
  install, uninstall, template and doctor runs (`setup::plan`).
- `registry`: the project registry: registering, unregistering, groups,
  and the listings and status reports, with the laws that relate them
  (`registry::laws`, `registry::report_laws`, `registry::slug_laws`).
- `control`: the control server's request rules, graph edge filtering, the
  shortest bounded path between two nodes (`control::walk`), dependency
  cycles (`control::cycles`), the breadth-first neighbour walk as a state
  machine (`control::neighbors`), the scope target labels
  (`control::scope_targets`, `control::target_labels`), and the server's
  command line with its `serve` options (`control::server_args`).
- `compaction`: summaries of command output (git, cargo, tests, and more)
  within a byte budget.
- `bench`: benchmark helpers and the benchmark config file format; the
  plain-text ranking of fixture files (`bench::ranking`), the context the
  file-by-file, search-only and semantic modes select (`bench::modes`,
  `bench::semantic`), the counts recorded of a selection
  (`bench::workflow`), and how a search-quality case is judged
  (`bench::quality`).

`app/` is the `b3` program around the library: it reads the environment and
files, prints the registry as JSON with serde_json, and writes configs and the
registry with backups.
