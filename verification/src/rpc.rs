//! A thin service shell around the tree, for a surrounding transport to own.

use vstd::prelude::*;

use crate::tree::MerkleTree;

verus! {

/// A service instance owning one tree.
pub struct MerkleEngineService {
    pub tree: MerkleTree,
}

impl MerkleEngineService {
    /// Creates a service around a fresh, empty tree.
    pub fn new() -> (s: Self)
        ensures
            s.tree@ == Seq::<Seq<u8>>::empty(),
    {
        MerkleEngineService { tree: MerkleTree::new() }
    }
}

} // verus!
