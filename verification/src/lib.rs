//! Verified core of a block-streaming adapter for a blockchain node.
//!
//! The crate turns loosely-typed raw chain records (hex-string quantities,
//! optional fields) into a strict canonical block representation, and drives
//! the three-phase merge of an archive source, a live finalized range and a
//! reorg-aware hot tail into one ordered, fork-annotated response stream.
//! All decisions live here and are verified; the asynchronous fetch loops and
//! the wire encoding sit outside the library and only feed it plain values.

pub mod canon;
pub mod codec;
pub mod data;
pub mod errors;
pub mod hex;
pub mod stream;
