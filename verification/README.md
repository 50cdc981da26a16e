# git-anatomy

Find out what else breaks when you change a function: git-anatomy
cross-references static call dependencies (from syntax trees) with
historical co-change patterns (from Git) and classifies the coupling of a
file or function to the rest of the code base as HIGH, MEDIUM or LOW risk.

The temporal coupling of `A -> B` is `Count(A ∩ B) / Count(A)`: the share of
the commits touching `A` that also touched `B`.

## Layout

- `src/` — the library, verified with Verus:
  - `analyzer/` — language detection, the syntax tree the parser gives
    (`parse.rs` calls tree-sitter), function and call extraction with noise
    filtering, the static call graph, risk classification and the
    function-level coupling table;
  - `git_engine.rs` — commit records, file deltas, diff hunks and what is
    derived from them (changed line ranges, function deltas, commit
    selection, time formatting);
  - `db/` — the coupling store (commits, file and function deltas) and its
    queries: temporal coupling of files and functions, the top coupled
    pairs, statistics, file and function listings, with the laws that tie
    the queries to what was stored (`laws.rs`);
  - `report.rs` — the decisions behind the command-line reports (source
    and noise files, path shortening, confidence tiers, the risk table, the
    pairs a scan shows);
  - `tui/` — the interactive browser's state machine and key bindings;
  - `ratio.rs`, `text.rs` — exact fractions and character-sequence helpers.
- `app/` — the program around it: the command line, reading the repository
  with git2, caching the store in SQLite, and drawing the terminal UI.
- `tests/` — tests of the library on concrete values.

Confidences are exact fractions (`Ratio`) in the library; the program
turns them into percentages for display.
