//! Verification of an OP proofs storage against the canonical chain state.
//!
//! The two stores are walked in lockstep, entry by entry, and every discrepancy
//! that could make a state root differ is collected in a report.

pub mod command;
pub mod compare;
pub mod entry_laws;
pub mod laws;
pub mod primitives;
pub mod render;
pub mod report;
pub mod run_laws;
pub mod step_laws;
pub mod text;
pub mod text_laws;
pub mod trie;
pub mod verification;
