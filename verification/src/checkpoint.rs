//! Signed checkpoints: binding a tree size and root digest to an Ed25519
//! signing identity.

use vstd::prelude::*;

use crate::crypto::{
    ed25519_pub_of, ed25519_public_key, ed25519_sig_of, ed25519_sign, hex_decode, hex_encode,
    sha256, sha256_of, spec_hex, spec_is_hex_bytes, spec_unhex,
};
use crate::error::EngineError;
use vstd::string::StringSliceAdditionalSpecFns;
use vstd::utf8::encode_utf8;

verus! {

/// The big-endian byte representation of a 64-bit tree size.
pub open spec fn spec_u64_be(x: u64) -> Seq<u8> {
    seq![
        ((x >> 56) & 0xff) as u8,
        ((x >> 48) & 0xff) as u8,
        ((x >> 40) & 0xff) as u8,
        ((x >> 32) & 0xff) as u8,
        ((x >> 24) & 0xff) as u8,
        ((x >> 16) & 0xff) as u8,
        ((x >> 8) & 0xff) as u8,
        (x & 0xff) as u8,
    ]
}

/// The byte context that a checkpoint signature covers: the big-endian tree
/// size followed by the UTF-8 bytes of the root digest string.
pub open spec fn spec_sign_context(tree_size: u64, root_hash: Seq<char>) -> Seq<u8> {
    spec_u64_be(tree_size) + encode_utf8(root_hash)
}

/// A signed attestation that a tree of `tree_size` leaves has the root digest
/// `root_hash`, issued by the key with fingerprint `key_id`.
pub struct SignedTreeHead {
    pub tree_size: u64,
    pub root_hash: String,
    pub signature: String,
    pub key_id: String,
}

/// The checkpoint signing authority: holds a 32-byte Ed25519 secret seed for
/// its lifetime and never exposes it.
pub struct SignerWrapper {
    seed: Vec<u8>,
}

impl SignerWrapper {
    /// The secret seed the signer was built from; closed, so callers can
    /// relate signatures to the seed without ever reading it.
    pub closed spec fn seed_view(self) -> Seq<u8> {
        self.seed@
    }

    #[verifier::type_invariant]
    closed spec fn wf(self) -> bool {
        self.seed@.len() == 32
    }

    /// Builds a signer from a hexadecimal encoding of a 32-byte secret seed.
    /// Fails with `InvalidKeyMaterial` exactly when the string is not valid
    /// hexadecimal or does not decode to 32 bytes.
    pub fn from_seed_hex(seed_hex: &str) -> (r: Result<SignerWrapper, EngineError>)
        ensures
            r is Ok <==> spec_is_hex_bytes(seed_hex.spec_bytes())
                && spec_unhex(seed_hex.spec_bytes()).len() == 32,
            r matches Ok(s) ==> s.seed_view() == spec_unhex(seed_hex.spec_bytes()),
            r matches Err(e) ==> e is InvalidKeyMaterial,
    {
        match hex_decode(seed_hex) {
            Some(seed) => {
                if seed.len() == 32 {
                    Ok(SignerWrapper { seed })
                } else {
                    Err(EngineError::InvalidKeyMaterial(
                        "seed does not decode to the expected key length".to_owned(),
                    ))
                }
            },
            None => Err(EngineError::InvalidKeyMaterial(
                "seed is not a valid hexadecimal string".to_owned(),
            )),
        }
    }

    /// Signs the pair of a tree size and a root digest string. The signature
    /// covers exactly `big-endian(tree_size) || utf8(root_hash)`; the key
    /// identifier is the hex SHA-256 fingerprint of the public key, the same
    /// for every checkpoint this signer issues.
    pub fn sign_sth(&self, tree_size: u64, root_hash: &str) -> (sth: SignedTreeHead)
        ensures
            sth.tree_size == tree_size,
            sth.root_hash@ == root_hash@,
            sth.signature@ == spec_hex(
                ed25519_sig_of(self.seed_view(), spec_sign_context(tree_size, root_hash@)),
            ),
            sth.key_id@ == spec_hex(sha256_of(ed25519_pub_of(self.seed_view()))),
    {
        proof {
            use_type_invariant(self);
        }
        let mut ctx = u64_be_bytes(tree_size);
        let rb = root_hash.as_bytes();
        let mut i: usize = 0;
        while i < rb.len()
            invariant
                i <= rb@.len(),
                rb@ == root_hash.spec_bytes(),
                ctx@ == spec_u64_be(tree_size) + rb@.take(i as int),
            decreases rb@.len() - i,
        {
            ctx.push(rb[i]);
            proof {
                assert(spec_u64_be(tree_size) + rb@.take(i + 1)
                    =~= (spec_u64_be(tree_size) + rb@.take(i as int)).push(rb@[i as int]));
            }
            i += 1;
        }
        proof {
            assert(rb@.take(rb@.len() as int) =~= rb@);
            assert(ctx@ == spec_sign_context(tree_size, root_hash@));
        }
        let sig = ed25519_sign(self.seed.as_slice(), ctx.as_slice());
        let pk = ed25519_public_key(self.seed.as_slice());
        let pk_digest = sha256(pk.as_slice());
        SignedTreeHead {
            tree_size,
            root_hash: root_hash.to_owned(),
            signature: hex_encode(sig.as_slice()),
            key_id: hex_encode(pk_digest.as_slice()),
        }
    }
}

/// The big-endian byte representation determines the value: no two tree
/// sizes share it.
pub proof fn lemma_u64_be_injective(x: u64, y: u64)
    requires
        spec_u64_be(x) == spec_u64_be(y),
    ensures
        x == y,
{
    assert(spec_u64_be(x)[0] == spec_u64_be(y)[0]);
    assert(spec_u64_be(x)[1] == spec_u64_be(y)[1]);
    assert(spec_u64_be(x)[2] == spec_u64_be(y)[2]);
    assert(spec_u64_be(x)[3] == spec_u64_be(y)[3]);
    assert(spec_u64_be(x)[4] == spec_u64_be(y)[4]);
    assert(spec_u64_be(x)[5] == spec_u64_be(y)[5]);
    assert(spec_u64_be(x)[6] == spec_u64_be(y)[6]);
    assert(spec_u64_be(x)[7] == spec_u64_be(y)[7]);
    assert(x == y) by (bit_vector)
        requires
            ((x >> 56) & 0xff) as u8 == ((y >> 56) & 0xff) as u8,
            ((x >> 48) & 0xff) as u8 == ((y >> 48) & 0xff) as u8,
            ((x >> 40) & 0xff) as u8 == ((y >> 40) & 0xff) as u8,
            ((x >> 32) & 0xff) as u8 == ((y >> 32) & 0xff) as u8,
            ((x >> 24) & 0xff) as u8 == ((y >> 24) & 0xff) as u8,
            ((x >> 16) & 0xff) as u8 == ((y >> 16) & 0xff) as u8,
            ((x >> 8) & 0xff) as u8 == ((y >> 8) & 0xff) as u8,
            (x & 0xff) as u8 == (y & 0xff) as u8,
    ;
}

/// A checkpoint binds exactly one pair: two signing contexts are equal only
/// for the same tree size and the same root digest string, so a signature
/// over one pair can never stand for another.
pub proof fn lemma_sign_context_injective(n1: u64, h1: Seq<char>, n2: u64, h2: Seq<char>)
    requires
        spec_sign_context(n1, h1) == spec_sign_context(n2, h2),
    ensures
        n1 == n2,
        h1 == h2,
{
    let c = spec_sign_context(n1, h1);
    assert(spec_u64_be(n1) =~= c.take(8));
    assert(spec_u64_be(n2) =~= c.take(8));
    lemma_u64_be_injective(n1, n2);
    assert(encode_utf8(h1) =~= c.skip(8));
    assert(encode_utf8(h2) =~= c.skip(8));
    vstd::utf8::encode_utf8_decode_utf8(h1);
    vstd::utf8::encode_utf8_decode_utf8(h2);
}

/// Writes a 64-bit value as its eight big-endian bytes.
pub fn u64_be_bytes(x: u64) -> (r: Vec<u8>)
    ensures
        r@ == spec_u64_be(x),
{
    let mut r: Vec<u8> = Vec::new();
    r.push(((x >> 56) & 0xff) as u8);
    r.push(((x >> 48) & 0xff) as u8);
    r.push(((x >> 40) & 0xff) as u8);
    r.push(((x >> 32) & 0xff) as u8);
    r.push(((x >> 24) & 0xff) as u8);
    r.push(((x >> 16) & 0xff) as u8);
    r.push(((x >> 8) & 0xff) as u8);
    r.push((x & 0xff) as u8);
    proof {
        assert(r@ =~= spec_u64_be(x));
    }
    r
}

} // verus!
