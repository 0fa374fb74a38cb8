# nodus_executor

Query planning and execution for a PostgreSQL-compatible SQL engine, verified
with Verus.

The library works on plain values. It plans parsed statements into logical
plans, evaluates expressions, joins, groups, sorts, and projects rows, decides
foreign keys and sequences, and describes the catalog through the `pg_catalog`
tables. Each function's contract says what it returns for every input; laws
that relate several functions are public proof functions named `law_..`.

What the library does not decide itself (floating-point arithmetic, the
function library, dates, the conditions of the query at hand) it looks up among
`facts::Facts`. A function that misses an answer stops with the request; its
caller adds the answer and calls again. `app/answers.rs` holds that loop. A
request about a condition, an expression, or a subquery carries its code
(`src/codes.rs`), a value that spells the part of the plan out; `app/queries.rs`
finds the part again by it.

## Layout

- `src/syntax.rs`, `src/literals.rs`, `src/lower.rs`, `src/plan_*.rs`,
  `src/planner.rs`: statements and how they are planned
- `src/plan_types.rs`, `src/plan_views.rs`, `src/expr.rs`, `src/codes.rs`: plans,
  expressions, and the values that spell them out
- `src/eval.rs`, `src/scalar_ops.rs`, `src/cast.rs`, `src/json_ops.rs`,
  `src/json_text.rs`, `src/temporal.rs`, `src/interval.rs`, `src/pattern.rs`: evaluation
- `src/select.rs`, `src/join.rs`, `src/grouping.rs`, `src/window.rs`,
  `src/frames.rs`, `src/projection.rs`, `src/arrange.rs`, `src/ordering.rs`,
  `src/set_functions.rs`, `src/set_ops.rs`, `src/literal_select.rs`, `src/values_list.rs`,
  `src/table_functions.rs`, `src/recursion.rs`, `src/streaming.rs`: queries
- `src/select_laws.rs`: what LIMIT, OFFSET, ORDER BY, and DISTINCT make of a query
- `src/returning.rs`: what a change returns of the rows it touched
- `src/catalog.rs`, `src/pg_catalog.rs`, `src/system_*.rs`,
  `src/identifiers.rs`: the catalog and its system tables
- `src/referential.rs`, `src/sequences.rs`, `src/session_vars.rs`,
  `src/table_sources.rs`, `src/storage_keys.rs`, `src/alterations.rs`: foreign
  keys, sequences, settings, stored tables
- `app/`: SQL text, the clock, storage, the stored catalog, streamed results
- `tests/`: statements from text to rows, and each part on its own
