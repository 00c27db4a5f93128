//! The append-only Merkle hash tree: domain-separated leaf and node digests,
//! and the canonical left-heavy root computation over a growing leaf sequence.

use vstd::prelude::*;

use crate::crypto::{hex_encode, lemma_spec_hex_len, sha256, sha256_of, spec_hex};
use crate::{LEAF_PREFIX, NODE_PREFIX};

verus! {

/// The leaf digest of a record: SHA-256 over the record prefixed with the
/// leaf domain-separation tag.
pub open spec fn spec_leaf_hash(record: Seq<u8>) -> Seq<u8> {
    sha256_of(seq![LEAF_PREFIX] + record)
}

/// The digest of an internal node: SHA-256 over both child digests prefixed
/// with the node domain-separation tag.
pub open spec fn spec_node_hash(left: Seq<u8>, right: Seq<u8>) -> Seq<u8> {
    sha256_of(seq![NODE_PREFIX] + left + right)
}

/// The byte sequences of a sequence of 32-byte digests.
pub open spec fn digests_of(s: Seq<[u8; 32]>) -> Seq<Seq<u8>> {
    s.map_values(|a: [u8; 32]| a@)
}

/// The leaf digests of a sequence of records, in order.
pub open spec fn spec_leaves_of(records: Seq<Seq<u8>>) -> Seq<Seq<u8>> {
    records.map_values(|r: Seq<u8>| spec_leaf_hash(r))
}

/// The largest power of two strictly below `n`, for `n >= 2`: the canonical
/// split point of a subtree of `n` leaves.
pub open spec fn spec_pow2_below(n: int) -> int
    recommends
        2 <= n,
    decreases n,
{
    if n <= 2 {
        1
    } else {
        2 * spec_pow2_below((n + 1) / 2)
    }
}

/// Whether `n` is a power of two.
pub open spec fn spec_is_pow2(n: int) -> bool
    decreases n,
{
    if n <= 0 {
        false
    } else if n == 1 {
        true
    } else {
        n % 2 == 0 && spec_is_pow2(n / 2)
    }
}

/// For `n >= 2`, the split point is a power of two with `k < n <= 2 * k`.
pub proof fn lemma_pow2_below_bounds(n: int)
    requires
        2 <= n,
    ensures
        1 <= spec_pow2_below(n) < n,
        n <= 2 * spec_pow2_below(n),
        spec_is_pow2(spec_pow2_below(n)),
    decreases n,
{
    if n > 2 {
        lemma_pow2_below_bounds((n + 1) / 2);
    }
}

/// The characterization is tight: any power of two `k` with `k < n <= 2 * k`
/// is the split point of `n`.
pub proof fn lemma_pow2_below_unique(n: int, k: int)
    requires
        2 <= n,
        spec_is_pow2(k),
        k < n,
        n <= 2 * k,
    ensures
        k == spec_pow2_below(n),
    decreases n,
{
    if n <= 2 {
        assert(k == 1);
    } else {
        let m = (n + 1) / 2;
        assert(k >= 2);
        assert(k % 2 == 0 && spec_is_pow2(k / 2));
        lemma_pow2_below_unique(m, k / 2);
    }
}

/// The digest of the subtree over the half-open leaf range `[lo, hi)`: a
/// single leaf is its own digest; a larger range splits at the largest power
/// of two below its length, left part first.
pub open spec fn spec_subtree(leaves: Seq<Seq<u8>>, lo: int, hi: int) -> Seq<u8>
    recommends
        0 <= lo < hi <= leaves.len(),
    decreases hi - lo when lo < hi via spec_subtree_decreases
{
    if hi - lo == 1 {
        leaves[lo]
    } else {
        let k = spec_pow2_below(hi - lo);
        spec_node_hash(spec_subtree(leaves, lo, lo + k), spec_subtree(leaves, lo + k, hi))
    }
}

#[via_fn]
proof fn spec_subtree_decreases(leaves: Seq<Seq<u8>>, lo: int, hi: int) {
    if lo < hi && hi - lo != 1 {
        lemma_pow2_below_bounds(hi - lo);
    }
}

/// The root of a leaf sequence as a hexadecimal string: the empty sentinel
/// for no leaves, else the lowercase hex encoding of the subtree digest over
/// the whole range.
pub open spec fn spec_root(leaves: Seq<Seq<u8>>) -> Seq<char> {
    if leaves.len() == 0 {
        Seq::empty()
    } else {
        spec_hex(spec_subtree(leaves, 0, leaves.len() as int))
    }
}

/// Computes the leaf digest of a record: `SHA-256(0x00 || record)`.
pub fn leaf_hash(data: &[u8]) -> (r: [u8; 32])
    ensures
        r@ == spec_leaf_hash(data@),
{
    let mut buf: Vec<u8> = Vec::new();
    buf.push(LEAF_PREFIX);
    let mut i: usize = 0;
    while i < data.len()
        invariant
            i <= data@.len(),
            buf@ == seq![LEAF_PREFIX] + data@.take(i as int),
        decreases data@.len() - i,
    {
        buf.push(data[i]);
        proof {
            assert(seq![LEAF_PREFIX] + data@.take(i + 1)
                =~= (seq![LEAF_PREFIX] + data@.take(i as int)).push(data@[i as int]));
        }
        i += 1;
    }
    proof {
        assert(data@.take(data@.len() as int) =~= data@);
    }
    sha256(buf.as_slice())
}

/// Computes the digest of an internal node: `SHA-256(0x01 || left || right)`.
pub fn node_hash(left: &[u8; 32], right: &[u8; 32]) -> (r: [u8; 32])
    ensures
        r@ == spec_node_hash(left@, right@),
{
    let mut buf: Vec<u8> = Vec::new();
    buf.push(NODE_PREFIX);
    let mut i: usize = 0;
    while i < 32
        invariant
            i <= 32,
            buf@ == seq![NODE_PREFIX] + left@.take(i as int),
        decreases 32 - i,
    {
        buf.push(left[i]);
        proof {
            assert(seq![NODE_PREFIX] + left@.take(i + 1)
                =~= (seq![NODE_PREFIX] + left@.take(i as int)).push(left@[i as int]));
        }
        i += 1;
    }
    proof {
        assert(left@.take(32) =~= left@);
    }
    let mut j: usize = 0;
    while j < 32
        invariant
            j <= 32,
            buf@ == seq![NODE_PREFIX] + left@ + right@.take(j as int),
        decreases 32 - j,
    {
        buf.push(right[j]);
        proof {
            assert(seq![NODE_PREFIX] + left@ + right@.take(j + 1)
                =~= (seq![NODE_PREFIX] + left@ + right@.take(j as int)).push(right@[j as int]));
        }
        j += 1;
    }
    proof {
        assert(right@.take(32) =~= right@);
    }
    sha256(buf.as_slice())
}

/// Returns the largest power of two strictly below `n`.
pub fn largest_pow2_less_than(n: usize) -> (k: usize)
    requires
        2 <= n,
    ensures
        k as int == spec_pow2_below(n as int),
{
    let mut k: usize = 1;
    while k <= (n - 1) / 2
        invariant
            2 <= n,
            1 <= k < n,
            spec_is_pow2(k as int),
        decreases n - k,
    {
        k = k * 2;
    }
    proof {
        lemma_pow2_below_unique(n as int, k as int);
    }
    k
}

/// Recomputes the digest of the subtree over the leaf range `[lo, hi)`.
pub fn subtree_hash(leaves: &[[u8; 32]], lo: usize, hi: usize) -> (r: [u8; 32])
    requires
        lo < hi <= leaves@.len(),
    ensures
        r@ == spec_subtree(digests_of(leaves@), lo as int, hi as int),
    decreases hi - lo,
{
    if hi - lo == 1 {
        leaves[lo]
    } else {
        proof {
            lemma_pow2_below_bounds(hi - lo);
        }
        let k = largest_pow2_less_than(hi - lo);
        let l = subtree_hash(leaves, lo, lo + k);
        let r2 = subtree_hash(leaves, lo + k, hi);
        node_hash(&l, &r2)
    }
}

/// An ordered, append-only sequence of leaf digests with a deterministic
/// Merkle root. Its view is the sequence of 32-byte leaf digests.
#[derive(Clone)]
pub struct MerkleTree {
    leaves: Vec<[u8; 32]>,
}

impl View for MerkleTree {
    type V = Seq<Seq<u8>>;

    closed spec fn view(&self) -> Seq<Seq<u8>> {
        digests_of(self.leaves@)
    }
}

impl MerkleTree {
    /// Creates an empty tree.
    pub fn new() -> (t: Self)
        ensures
            t@ == Seq::<Seq<u8>>::empty(),
    {
        let t = MerkleTree { leaves: Vec::new() };
        proof {
            assert(t@ =~= Seq::<Seq<u8>>::empty());
        }
        t
    }

    /// Hashes a record into a leaf digest, appends it, and returns its
    /// 0-based index. This is the only mutating operation; the size grows by
    /// exactly one and no entry is ever removed or reordered.
    pub fn append(&mut self, data: &[u8]) -> (idx: usize)
        ensures
            final(self)@ == old(self)@.push(spec_leaf_hash(data@)),
            idx == old(self)@.len(),
    {
        let h = leaf_hash(data);
        self.leaves.push(h);
        proof {
            assert(self@ =~= old(self)@.push(spec_leaf_hash(data@)));
        }
        self.leaves.len() - 1
    }

    /// Returns the Merkle root of the current leaf sequence as lowercase
    /// hexadecimal: the empty string for an empty tree, the leaf digest
    /// itself for a single leaf, and the combined subtree digest otherwise.
    /// A non-empty tree's root always has 64 digits, so the empty sentinel
    /// is distinct from the root over any data.
    pub fn root(&self) -> (r: String)
        ensures
            r@ == spec_root(self@),
            r@.len() == if self@.len() == 0 { 0int } else { 64int },
    {
        if self.leaves.len() == 0 {
            String::new()
        } else {
            let d = subtree_hash(self.leaves.as_slice(), 0, self.leaves.len());
            proof {
                lemma_spec_hex_len(d@);
            }
            hex_encode(d.as_slice())
        }
    }
}

/// Determinism and replay: the root is a pure function of the leaf sequence,
/// so two trees holding the same leaves have the same root, however and
/// whenever each was built.
pub proof fn lemma_root_deterministic(a: Seq<Seq<u8>>, b: Seq<Seq<u8>>)
    requires
        a == b,
    ensures
        spec_root(a) == spec_root(b),
{
}

/// The root of a single-record tree is that record's leaf digest itself,
/// hex-encoded, with no node combination applied.
pub proof fn lemma_singleton_root(leaves: Seq<Seq<u8>>)
    requires
        leaves.len() == 1,
    ensures
        spec_root(leaves) == spec_hex(leaves[0]),
{
}

/// Incremental append and from-scratch rebuild agree on every prefix: the
/// root over the first `i` leaf digests of a record sequence equals the root
/// of a tree built from the first `i` records alone.
pub proof fn lemma_prefix_consistency(records: Seq<Seq<u8>>, i: int)
    requires
        0 <= i <= records.len(),
    ensures
        spec_root(spec_leaves_of(records).take(i)) == spec_root(spec_leaves_of(records.take(i))),
{
    assert(spec_leaves_of(records).take(i) =~= spec_leaves_of(records.take(i)));
}

} // verus!
