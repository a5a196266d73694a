//! Decomposition of a block's Merkle-Patricia trie proofs into
//! content-addressed records, ready for distribution on a portal network.
//!
//! The core is `assemble::create_state_content`: it walks every account's
//! inclusion proof (and each storage slot's proof) root-to-leaf, emits one
//! record per distinct trie node with its root-relative nibble path and a
//! minimal root-to-node proof slice, and merges duplicate nodes shared
//! between proofs under a first-writer-wins rule.

pub mod nibbles;
pub mod trie;
pub mod content;
pub mod hashing;
pub mod decompose;
pub mod types;
pub mod assemble;
pub mod laws;
