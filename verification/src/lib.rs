//! An append-only Merkle hash tree over opaque byte records.
//!
//! The tree exposes a single root digest summarizing the whole record
//! sequence, verification of inclusion proofs, and signed checkpoints that
//! bind a tree size and root digest to an Ed25519 signing identity.

use vstd::prelude::*;

pub mod checkpoint;
pub mod crypto;
pub mod error;
pub mod inclusion;
pub mod rpc;
pub mod tree;

verus! {

/// Domain-separation tag hashed in front of a record to form a leaf digest.
pub const LEAF_PREFIX: u8 = 0x00;

/// Domain-separation tag hashed in front of two child digests to form an
/// internal node digest; distinct from `LEAF_PREFIX` so an internal node can
/// never be confused with a leaf.
pub const NODE_PREFIX: u8 = 0x01;

} // verus!
