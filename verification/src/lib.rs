//! Celestia data availability for an optimistic-rollup fault-proof program.
//!
//! The crate holds the rules that decide whether a blob served by the
//! preimage oracle is the one an L1 pointer frame refers to, and the rules
//! the host follows when it assembles that evidence.
pub mod assembly;
pub mod blobstream;
pub mod bundle;
pub mod bytes;
pub mod celestia;
pub mod chains;
pub mod client;
pub mod codec;
pub mod errors;
pub mod header;
pub mod host;
pub mod inclusion;
pub mod keccak;
pub mod payload;
pub mod preimage;
pub mod proofs;
pub mod provider;
pub mod rlp;
pub mod source;
pub mod trie;
pub mod types;
pub mod uint;
