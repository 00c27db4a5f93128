//! Inclusion-proof verification: recomputing a root from a claimed leaf and
//! an authentication path, and comparing it to a claimed root.

use vstd::prelude::*;

use crate::crypto::{hex_encode, spec_hex};
use crate::tree::{digests_of, leaf_hash, node_hash, spec_leaf_hash, spec_node_hash};

verus! {

/// The digest reached from `cur` at position `index` by absorbing each
/// sibling of `path` in order from leaf towards root: an even position takes
/// the sibling on the right, an odd one on the left, and the position halves
/// at each level.
pub open spec fn spec_path_root(cur: Seq<u8>, index: nat, path: Seq<Seq<u8>>) -> Seq<u8>
    decreases path.len(),
{
    if path.len() == 0 {
        cur
    } else if index % 2 == 0 {
        spec_path_root(spec_node_hash(cur, path[0]), index / 2, path.drop_first())
    } else {
        spec_path_root(spec_node_hash(path[0], cur), index / 2, path.drop_first())
    }
}

/// A claim that a record stands at `leaf_index` in a tree of `tree_size`
/// leaves, supported by the ordered sibling digests of `path`, from the leaf
/// towards the root.
pub struct InclusionProof {
    pub leaf_index: usize,
    pub tree_size: usize,
    pub path: Vec<[u8; 32]>,
}

impl InclusionProof {
    /// Recomputes a root from the claimed leaf record and the path, and
    /// returns whether it equals the claimed root. A malformed path is not an
    /// error: it reaches a different digest and the comparison fails.
    pub fn verify(&self, leaf_data: &[u8], root_hex: &str) -> (r: bool)
        ensures
            r == (spec_hex(
                spec_path_root(
                    spec_leaf_hash(leaf_data@),
                    self.leaf_index as nat,
                    digests_of(self.path@),
                ),
            ) == root_hex@),
    {
        let ghost all = digests_of(self.path@);
        let mut cur = leaf_hash(leaf_data);
        let mut index = self.leaf_index;
        let mut i: usize = 0;
        proof {
            assert(all.skip(0) =~= all);
        }
        while i < self.path.len()
            invariant
                i <= self.path@.len(),
                all == digests_of(self.path@),
                spec_path_root(cur@, index as nat, all.skip(i as int))
                    == spec_path_root(
                    spec_leaf_hash(leaf_data@),
                    self.leaf_index as nat,
                    all,
                ),
            decreases self.path@.len() - i,
        {
            let sibling = self.path[i];
            proof {
                assert(all.skip(i as int)[0] == sibling@);
                assert(all.skip(i as int).drop_first() =~= all.skip(i + 1));
            }
            if index % 2 == 0 {
                cur = node_hash(&cur, &sibling);
            } else {
                cur = node_hash(&sibling, &cur);
            }
            index = index / 2;
            i += 1;
        }
        proof {
            assert(all.skip(all.len() as int) =~= Seq::<Seq<u8>>::empty());
        }
        let computed = hex_encode(cur.as_slice());
        let claimed = root_hex.to_owned();
        computed == claimed
    }
}

} // verus!
