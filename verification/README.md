# icn_covm

The cooperative virtual machine's library: the DSL compiler, the bytecode
compiler, the proposal lifecycle and its comments, identities and
credentials, the federation's proposal store, and the shapes of the service's
requests and replies. The functions under `src/` are verified with Verus
against their `requires`/`ensures` contracts; the few marked
`#[verifier::external_body]` only call outside code (the clock, UUIDs,
Ed25519, multibase, and std's Unicode case mapping, alphanumeric test,
character collection and `Duration`) and their contracts are trusted.

## Layout

- `src/compiler/` — the DSL: `grammar.rs` states what each parsing function
  computes over character sequences, the `*_block.rs` files and
  `line_parser.rs` compute it; `parse_dsl.rs` reads governance blocks,
  `flat.rs` the flat one-instruction-per-line form, `macros.rs` the
  `proposal_lifecycle` block, `no_nops.rs` proves that no accepted
  program holds a `Nop`, and `no_panics.rs` which sources the parser reads
  without a panic, with a checked parse for callers that cannot know.
- `src/bytecode.rs` — compilation of operations to jump-based bytecode, with
  the proofs that every jump lands inside the program and that the function
  table gives where each function's entry instruction stands.
- `src/governance/` — the proposal lifecycle as a state machine (with the
  laws that final stages stay final and that a vote's tally decides it) and
  threaded comments with their versions.
- `src/identity/` — key-bearing identities (Ed25519 keys, `did:key`
  identifiers, multibase signatures), entities with their storage
  namespaces, credentials and delegations.
- `src/federation/` — messages between nodes and the cache of federated
  proposals and votes.
- `src/cli/proposal_step.rs` — the decisions of the proposal commands:
  transitions with their guards, edits, votes and creation keys.
- `src/cli/` — what the proposal and federation commands compute: the
  order of a threaded comment view, duration and status arguments, DID
  display, vote rankings.
- `src/events.rs` — log events and the lines they are written as.
- `src/api/`, `src/response.rs`, `src/error.rs`, `src/errors.rs`,
  `src/models.rs`, `src/config.rs` — the service's requests, replies,
  errors and settings.
- `src/text.rs`, `src/numeric.rs`, `src/kv.rs` — text, number and map
  helpers that the rest is stated over.
- `app/` — the command-line program: file reading, logging to the terminal
  and files, JSON output.
- `tests/` — tests of the library on concrete values.
