# shapes

A verified library for the Shapes context graph: shapes (what is being
built), constraints (rules that must hold), amendments (immutable change
records) and profiles (governance). The nodes live as YAML files under
`.shapes/`; the library works on an in-memory snapshot of them.

## Layout

- `src/` — the library, checked by Verus:
  - `model`, `ids`, `store`: the node types and the store snapshot
    (lookups follow the file store: a node is the first file with its id).
  - `walk`, `cycles`, `tree`, `queries`: DAG walks, cycle detection,
    the text tree, `list`/`get`/`query`.
  - `graph_checks`, `profile_checks`, `binding_checks`, `validate`: the
    integrity invariants (PARSE, INV-001 … INV-019).
  - `create`, `scaffold`, `templates`: node creation, YAML scaffolds and
    the starter kits.
  - `ci`, `same`: the pull-request checks CI-001 … CI-003 and the
    structural equality they compare nodes with.
  - `version`, `migrate`, `preflight`, `slug`: store versions, schema
    migrations, the skill preamble, file names.
- `app/` — the `shapes` binary: argument parsing, reading and writing
  `.shapes/`, git, and printing.
- `tests/` — tests of the library on concrete graphs.
