# cbom

A Cryptographic Bill of Materials generator: it finds the cryptography a
codebase uses (in source code, dependency lockfiles and certificate files),
grades each finding with a policy engine (severity, quantum safety,
remediation advice), writes the inventory as JSON or CycloneDX 1.5, compares
two inventories for CI gating, and shows how the inventory changed over
recent git commits.

The library under `src/` is written in Verus: every function carries a
contract, and the laws that hold across functions (what the comparison of
two inventories reports, what the policy engine guarantees, how the viewer's
selection moves) are stated and proved as proof functions.

## Layout

- `src/text.rs` — character-level string operations with their
  specifications (search, split, trim, case mapping, UTF-8 lengths).
- `src/models.rs` — the asset record, the CycloneDX structures, OIDs,
  primitives and serial numbers.
- `src/scanner.rs`, `src/queries.rs`, `src/match_rules.rs`,
  `src/line_rules.rs`, `src/source_scan.rs`, `src/syntax.rs`,
  `src/detection.rs` — detection in Python, JavaScript, Java, C/C++, C# and
  Go source, from tree-sitter query results and line rules.
- `src/certs.rs` — PEM blocks, base64 and X.509 certificate metadata.
- `src/files.rs` — which files of a tree are scanned, and how.
- `src/dependencies.rs`, `src/json.rs` — lockfile readers
  (`requirements.txt`, `Pipfile.lock`, `package-lock.json`, `yarn.lock`,
  `Cargo.lock`) and dependency chains.
- `src/policy.rs` — the policy engine.
- `src/diff.rs` — the comparison of two CBOMs.
- `src/history.rs` — git log parsing and the commit timeline.
- `src/display.rs`, `src/viewer.rs`, `src/report.rs`, `src/setup.rs` — what
  the reports and the terminal viewer show, and the viewer's key handling.
- `app/` — the `cbom` command line: argument parsing, the file walk, git,
  JSON (de)serialisation and the terminal.
- `tests/` — tests of the library.

## Collections

Where a hash set or a hash map would hold findings or package names, the
library keeps a `Vec` and searches it (`diff.rs`, `history.rs`) or keeps an
association list of (name, values) pairs (`dependencies.rs`). vstd does
specify `HashMap` and `HashSet`, but with `String` keys very little about
their contents can be proved, and their iteration order is chosen by a
per-process hasher, so no contract could say in which order parents or
tallies come out. With a `Vec` every lookup is proved and the order is the
order of first appearance, which the contracts state.
