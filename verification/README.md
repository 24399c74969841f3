# relix_nodes

The logic of four nodes of an agent mesh, with proofs in Verus.

- `coordinator`: a ledger of tasks with their attempts, events, edges and todo lists, and the
  capabilities on it. The ledger is a value in memory; what every operation does to it is stated as
  a function of the ledger before. `spine` routes calls to the planning store.
- `memory`: turns of sessions with full-text search, the notes on subjects with their caps, the
  curator, and the plan of the calls to a vector store.
- `telegram`, `slack`: what the channels record, show and answer.
- `text`, `numeral`, `json`, `ordering`, `listing`: texts as sequences of characters, decimal
  numbers, JSON texts, stable sorting, cutting lists to a limit.
- `outside`: what is taken from other crates and from std, with the claims that are made of it.

`coordinator::laws`, `chain`, `documents`, `history`, `paging`, `promises`, `reach`, `recovery_laws` and
`memory::laws` hold properties that span several operations; a public proof function whose name starts with `law_`
states one of them, here and beside the types it speaks of.

`app/` is the program around the library: SQLite files, HTTP, timers, and the traits of other
crates. `tests/` runs the library with the real crates.
