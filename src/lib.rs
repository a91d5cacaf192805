//! Verified core of a zero-knowledge block-proving benchmark: decoding of
//! witness payloads, ancestor-header validation, the witness node store and
//! trie lookups over it, signer recovery, program-input framing,
//! proof-commitment checks and stage timing.
pub mod bytes;
pub mod hashing;
pub mod header;
pub mod hexcodec;
pub mod state;
pub mod witness;
pub mod framing;
pub mod input;
pub mod backend;
pub mod runner;
pub mod signer;
pub mod trie;
