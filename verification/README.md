# rhai_core

The core of an embedded scripting engine, written in Verus: every function in `src/`
carries a `requires`/`ensures` contract that Verus proves.

## Layout

- `src/` — the verified library.
  - `dynamic.rs`, `error.rs`, `position.rs`, `text.rs` — values, errors and text helpers,
    each with a plain mathematical view (`DynV`, `ErrV`, `Seq<char>`).
  - `arith.rs`, `builtin.rs`, `token.rs` — integer arithmetic and the built-in binary and
    op-assignment operators.
  - `ast.rs`, `scope.rs`, `engine.rs`, `eval.rs` — the syntax tree, the variable scope, the
    engine configuration and the evaluator. `eval.rs` states the meaning of every expression
    and statement as spec functions (`sem_expr`, `sem_stmt`, ...) and proves the executable
    evaluator equal to them; `eval_laws.rs` proves that evaluation never counts operations
    backwards nor shrinks the scope, and that blocks, loops and `try` restore it.
  - `module.rs`, `module_eval.rs`, `keyed.rs`, `callable.rs` — modules, their flattened
    index, and modules made by evaluating scripts.
  - `hashing.rs`, `config.rs` — hashes of variables and functions (with the exact items fed
    to the hasher) and the hashing seeds.
  - `json.rs`, `json_parse.rs` — rendering and parsing object maps as JSON.
  - `types.rs`, `custom_derive.rs`, `lang_core.rs`, `eval_context.rs`, `var_def.rs`,
    `interner.rs` — custom types, the builder calls a derived custom type makes, function
    metadata, evaluation contexts and the string interner's cache policy.
- `tests/` — tests of the library on concrete values.
- `app/` — the parts that cannot be verified: the process-wide seed cell, sleeping,
  `serde_json` parsing and the token output of the custom-type derive.

Outside crates (`ahash`, `once_cell`, `serde`, `serde_json`, `syn`, `quote`,
`proc-macro2`) are reached through a few trusted wrappers whose contracts state what their
documentation promises.
