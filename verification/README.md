# ironclaw

The decisions of an agent engine, verified with Verus: which actions a thread may
call, what happens to each call, how a step of Python code is answered, which version
of the orchestrator runs, and what the chat channels do with what reaches them.

## Layout

- `src/` is the library. Its functions state what they return in contracts, and the
  properties that span several functions stand beside them as public proof functions.
  - `text`, `number`, `json`: strings, numbers in text and JSON values.
  - `types`: identities, messages, events, threads, leases, documents and errors.
  - `gate`: checks before an action runs, asked in the order of their priorities.
  - `capability`: leases, the policy engine, the registry and the planner of grants.
  - `executor`: batches of actions, steps of Python code, the host functions of the
    orchestrator, its versions, compaction and the context of the model.
  - `memory`: documents, and skills with their versions and metrics.
  - `common`: events for the web, and time zones.
  - `channels`: Discord, Feishu and Prismer.
- `app/` performs what the library decides: it talks to the model, the store, the
  interpreter and the network, and reads and writes stored data.
- `tests/` runs the library, with the outside crates it calls.

## Trust

Outside crates are called through small wrappers whose contracts are believed:
`serde_json` (values as text), `regex`, `sha2`, `uuid`, `chrono-tz` and `subtle`, and a
few functions of the standard library. The comment above each says what it claims.

## Times and identities

Times are nanoseconds and identities are 128-bit numbers. Functions take both as
arguments, so what they return depends on their arguments alone.
