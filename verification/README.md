# ce-gke

A container orchestrator over a mesh of hosts: a Deployment says what should run, and the
orchestrator keeps the world matching it. There is no control plane; the state is a file.

`src/` is the decision core, verified with Verus: each function states what it returns, but for the
time that the clock gives, and the laws that span functions are proof functions beside them.

| Module | What it holds |
|---|---|
| `spec`, `spec_laws` | deployment specs, their validation, the pod template and its revision |
| `reconcile` | replica handles and their phases |
| `state` | the persisted store, by name and in name order |
| `sdk` | dependencies of an app: `dep` (what is wanted), `coord` (leases and claims), `registry` (where they are kept), `ensure` (the steps by which a dependency is ensured) |
| `stable` | attestations that designate a host as stable |
| `commands`, `commands_laws` | what each command of the command line does and says |
| `driver`, `amount`, `bytes`, `text` | the node address, credits, byte encodings, texts |

The calls into `hex`, `sha2` and the standard library that are believed rather than proved are in
`bytes`, `sdk::coord`, `sdk::dep` and `stable`; each says what is claimed of it.

`app/` is the program: arguments, files, serialization, the mesh calls and the tasks that renew
leases. `tests/` runs the library.
