//! Bridge-and-consistency core of a rollup node.
//!
//! Three tightly coupled pieces:
//! - a canonical codec that turns structured records into flat sequences of
//!   field elements and back ([`codec`]),
//! - a settlement-chain message ingestion worker whose progress tracking
//!   survives restarts without applying a message twice ([`worker`]),
//! - a consensus gate that checks a block's parent-state commitment before
//!   handing the block to an inner importer ([`consensus`]).
//!
//! Hash primitives ([`pedersen`], [`poseidon`]) are opaque providers supplied
//! by an outside cryptography crate behind trusted wrappers.

pub mod codec;
pub mod consensus;
pub mod felt;
pub mod hash;
pub mod pedersen;
pub mod poseidon;
pub mod worker;
pub mod felt_reader;
