# breakwater

Policy enforcement for query plans: who may run a query, and what the rows and
columns it reads are reduced to. The library is written in Verus: the functions in
`src/` are verified against their contracts, except for the wrappers around other
crates and the standard library, whose contracts are believed.

- `src/` is the library. Engines decide (`engine`, `abac`, and the Cedar adapter in
  `cedar`, `cedar_rules`, `cedar_gate`); enforcement is the same for all of them
  (`plan_actions`, `govern`, `provider`, `session`); `governance` is the profile a
  host assembles. The modules that end in `_laws`, and `meaning`, state what holds
  of the library as a whole.
- `src/outside.rs` holds the wrappers around Cedar: what is believed of it and not
  proved. A few items of the same kind stand next to their only callers: `text`
  (strings and characters), `error` (quoted text) and `plan_actions` (table names).
- `app/` connects the library to DataFusion sessions and to the services that have
  to be awaited. It is ordinary Rust, and a crate of its own: besides what
  `Cargo.toml` names it needs `datafusion` 54 with its `sql` feature, which the
  library and its tests do without.
- `tests/` runs the library from outside, with the real Cedar crate and DataFusion's
  own reading of table names.
