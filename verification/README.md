# bytedb_query

The query layer of a small database: SQL text goes in, rows or a count come out. The library is
written in Rust with its contracts and proofs in Verus.

- `src/text.rs`, `src/value.rs`, `src/error.rs`: texts, values and errors.
- `src/parser/`: the lexer, the syntax tree, the grammar and the parser, and how expressions are
  written out again.
- `src/planner/`: logical and physical plans, join order, index choice, how plans are shown.
- `src/executor/`: values and expressions, queries, tables and their constraints, INSERT, UPDATE and
  DELETE, transactions and snapshots, what statements read and write, what queries are charged
  against limits, and the engine that runs statements.
- `src/kv/`, `src/document/`: the key-value and the document engine.
- `app/`: floating-point numbers, plan costs, clocks and locks around the library.
- `tests/`: the library from outside.

Floating-point arithmetic is not part of the library. A caller hands it a numeric unit, a function
from questions (`Ask`) to replies (`Reply`), and every contract speaks of the replies that this
function gives. The same function is asked what only the surroundings of the engine know: whether a
transaction may change a row or commit, what columns hold, what a plan is estimated to cost, and what
the clock shows while a statement runs. The time and the depth to which queries may nest come from
the caller too (`Runner`).

Contracts say what a statement comes to as a function of the engine before it: `ran` in
`src/executor/engine.rs`, built from `select_rel`, `insert_work`, `update_work`, `delete_work` and
their like. What follows from them is stated in the proof functions whose names begin with `law_`.
