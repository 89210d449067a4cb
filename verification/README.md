# epistem

A capability registry for autonomous agents: it reads capability manifests, checks them,
resolves which capability depends on which, looks providers up in a registry, and learns a
capability into a workspace (its dependencies first), running a provider's verification
suites before the capability is installed and recorded.

## Layout

- `src/` — the library, written in Verus with its contracts and proofs:
  - `manifest/` — manifest and workspace models, and the validation rules;
  - `provider/` — provider references (`github:`, `local:`, `file:`), their text form and
    fetch plans;
  - `registry/`, `storage/`, `catalog/`, `search/` — the registry index, loaded
    capabilities, and lookup;
  - `resolver/` — the dependency graph, built on petgraph;
  - `reasoning/` — choosing a provider whose requirements the machine meets;
  - `runtime/`, `verification/` — what a provider's start, handshake, replies and
    shutdown come to;
  - `learn/` — learning as a state machine: told what happened, it says what to do next;
  - `cli.rs` — the lines the commands print.
- `app/` — the `epistem` program: command line, files, processes, git, and the loop that
  carries out what the learning session asks for.
- `tests/` — tests of the library.
