# op_proofs_verify

Verifies the OP proofs storage against the canonical chain state. Both stores are walked
in lockstep: the nodes of the account trie, the accounts, and of each account the nodes
of its storage trie and its storage slots. What differs is collected in a report.

- `src/` is the library, verified with Verus. It reads no store: a `Verification` says
  which entries it wants next and is given them.
  - `command`: the settings, the block at which to verify, the errors
  - `verification`: the course of a verification, step by step
  - `compare`: the comparison of two entries at the same position
  - `report`, `render`: the differences, and the text of a report
  - `primitives`, `trie`, `text`: words, numbers, trie nodes, and how they are written
  - `laws`: what a verification of two stores comes to as a whole
- `app/` is the command itself: arguments, cursors of the two databases, logging.
- `tests/` holds the tests of the library.

The types of trie nodes and their paths are those of `alloy-trie`, which reth's trie crates
re-export.
