# noslop

Deterministic dead-code, cycle, dependency, duplication and policy analysis
for TypeScript and Python repositories.

## Layout

- `src/` — the verified library (Verus). Every function carries a contract
  over spec-level models; the laws the library keeps are public proof
  functions next to the code they speak of (`law_*`).
  - `ids`, `path`, `text`, `scan`, `order` — identifiers, paths and text
    primitives with their character-level specifications.
  - `facts`, `ir`, `workspace`, `finding`, `doc` — the data the stages
    exchange: per-file facts, the resolved graph, the discovered workspace,
    findings, and parsed configuration documents.
  - `doc_text` — TOML and JSON documents read from text and written back
    (`toml`, `serde_json`).
  - `discover` — walk sorting, manifest reading, packages, the plugin
    registry and entry-point detection.
  - `reach`, `dead_files`, `exports`, `symbols`, `imports`, `cycles`, `deps`,
    `style`, `policy`, `duplication`, `passes` — the analysis passes.
  - `config`, `postprocess`, `cache`, `comments` — configuration, severity
    overrides, ignore paths and suppressions.
  - `fix` — fix planning, import/line/manifest edits, diffs and the rollback
    snapshot.
  - `cli` — rule selection, rule explanations and the generated
    `noslop.toml`.
  - `syntax` — syntax trees as plain walks (one per grammar, from
    `tree-sitter`), and the styling facts of CSS.
  - `extract` — per-file facts read from a walk: the TypeScript and Python
    readers, per-function complexity, duplication tokens, and the assembly
    of a file's facts.
  - `watch` — which file changes call for a re-scan, and the debounce.
- `app/` — the command-line program: argument parsing, file-system access,
  the floating-point complexity thresholds (CRAP) and their pass, caching,
  watching, and report output.
- `tests/` — tests of the library's public functions.
