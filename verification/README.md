# continuo

Runtime service composition for Rust, with its decisions proved in Verus.

Providers are registered once as typed shared instances, resolved by their concrete
type, taken through their lifecycle in one deterministic order, and run as managed
services. Beside that stand three small primitives: an admission gate with a graceful
drain, an in-flight counter, and a typed event bus.

## Layout

- `src/` is the verified library. It holds the state and takes the decisions.
  - `registry` finds providers by type and walks the lifecycle plan; `registry::plan`
    computes that plan, `registry::pass` steps through it, and `registry::run` states what
    holds of a pass as a whole.
  - `runtime` owns the generations of services: `runtime::command` carries commands
    out, `runtime::ending` handles shutdown and tasks that are over, `runtime::turn`
    ties the two to events, and `runtime::laws` states what holds over several steps.
  - `service` has what a manager sees: policies, statuses, snapshots, commands, replies.
  - `gate`, `guard` and `events` are the primitives; `signal` is the one-shot signal
    that a gate is built on.
  - The proofs take calls into the standard library, `tokio`, `tokio-util` and `dashmap`
    on trust. They stand in `erasure`, `cancellation`, `span`, `signal`, `events`, `text`,
    `registry::provider` (one coercion) and `runtime::task`. Each says in its doc comment
    what is claimed of the outside function.
  - `sorting`, `pairs`, `permutation` and `text` are helpers.
- `app/` is ordinary asynchronous Rust around the library: locks, channels, tasks, the
  clock. It performs what the library asks for and reports back what happened.
- `tests/` runs the library on concrete values.

## Conventions

What an application implements (names, hints, start policies, verdicts) is not known
beforehand. Contracts speak of it through relations such as `names` or `starts`: a value
is one that the provider can give. Where an answer decides, the part that follows from
it is a function of its own with an exact contract.

Work that takes time is a state machine: a pass or a turn says what to do next, is told
what came of it, and goes on.
