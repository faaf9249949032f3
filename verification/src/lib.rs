//! A stateless Bitcoin SPV (simplified payment verification) engine.
//!
//! The crate parses Bitcoin's wire formats from untrusted bytes, recomputes
//! transaction ids, checks Merkle-inclusion proofs, and validates block
//! headers and header chains (digest integrity, parent linkage, proof-of-work
//! sufficiency, difficulty-retarget policy). Every operation is a pure
//! function over caller-owned byte buffers; nothing is retained across calls.

pub mod bytes;
pub mod chain;
pub mod compact_int;
pub mod errors;
pub mod hash;
pub mod header;
pub mod merkle;
pub mod script;
pub mod spv;
pub mod tx;
