//! Digest and encoding primitives that the tree, proof and checkpoint logic
//! build on: SHA-256, lowercase hexadecimal, and Ed25519 signing.
//!
//! The outside calls stand behind small trusted wrappers; everything that can
//! be stated exactly (hexadecimal, lengths) is stated exactly, and what would
//! take pages (the digest and signature values themselves) is named by
//! uninterpreted spec functions of the inputs alone.

use vstd::prelude::*;

use ed25519_dalek::Signer;
use sha2::Digest;
use vstd::string::StringSliceAdditionalSpecFns;

verus! {

/// The SHA-256 digest of a byte sequence: a pure function of the bytes alone.
pub uninterp spec fn sha256_of(bytes: Seq<u8>) -> Seq<u8>;

/// The RFC 8032 Ed25519 signature over `msg` by the key derived from the
/// 32-byte secret `seed`: deterministic, a function of seed and message alone.
pub uninterp spec fn ed25519_sig_of(seed: Seq<u8>, msg: Seq<u8>) -> Seq<u8>;

/// The Ed25519 public key derived from the 32-byte secret `seed`.
pub uninterp spec fn ed25519_pub_of(seed: Seq<u8>) -> Seq<u8>;

/// The sixteen lowercase hexadecimal digit characters, least value first.
pub open spec fn spec_hex_digits() -> Seq<char> {
    seq!['0', '1', '2', '3', '4', '5', '6', '7', '8', '9', 'a', 'b', 'c', 'd', 'e', 'f']
}

/// Lowercase hexadecimal encoding: two digits per byte, high nibble first.
pub open spec fn spec_hex(bytes: Seq<u8>) -> Seq<char>
    decreases bytes.len(),
{
    if bytes.len() == 0 {
        Seq::empty()
    } else {
        seq![
            spec_hex_digits()[bytes[0] as int / 16],
            spec_hex_digits()[bytes[0] as int % 16],
        ] + spec_hex(bytes.drop_first())
    }
}

/// Whether `b` is the ASCII code of a hexadecimal digit, either case.
pub open spec fn spec_is_hex_digit(b: u8) -> bool {
    (48 <= b && b <= 57) || (65 <= b && b <= 70) || (97 <= b && b <= 102)
}

/// The value of the hexadecimal digit with ASCII code `b`.
pub open spec fn spec_hex_val(b: u8) -> int
    recommends
        spec_is_hex_digit(b),
{
    if 48 <= b && b <= 57 {
        b as int - 48
    } else if 65 <= b && b <= 70 {
        b as int - 55
    } else {
        b as int - 87
    }
}

/// Whether `bytes` is a well-formed hexadecimal string: even length, every
/// byte a digit of either case.
pub open spec fn spec_is_hex_bytes(bytes: Seq<u8>) -> bool {
    &&& bytes.len() % 2 == 0
    &&& forall|i: int| 0 <= i < bytes.len() ==> spec_is_hex_digit(bytes[i])
}

/// Hexadecimal decoding: one byte from each pair of digits, high nibble first.
pub open spec fn spec_unhex(bytes: Seq<u8>) -> Seq<u8>
    recommends
        spec_is_hex_bytes(bytes),
    decreases bytes.len(),
{
    if bytes.len() < 2 {
        Seq::empty()
    } else {
        seq![(16 * spec_hex_val(bytes[0]) + spec_hex_val(bytes[1])) as u8]
            + spec_unhex(bytes.skip(2))
    }
}

/// A hexadecimal encoding holds exactly two digits for each byte.
pub proof fn lemma_spec_hex_len(bytes: Seq<u8>)
    ensures
        spec_hex(bytes).len() == 2 * bytes.len(),
    decreases bytes.len(),
{
    if bytes.len() > 0 {
        lemma_spec_hex_len(bytes.drop_first());
    }
}

/// Relies on sha2::Sha256 (sha2 0.10): SHA-256 is a pure function of the
/// input bytes with a 32-byte output.
#[verifier::external_body]
pub(crate) fn sha256(data: &[u8]) -> (r: [u8; 32])
    ensures
        r@ == sha256_of(data@),
{
    let mut out = [0u8; 32];
    out.copy_from_slice(&sha2::Sha256::digest(data));
    out
}

/// Relies on hex::encode (hex 0.4): lowercase hexadecimal, two digits per
/// byte, high nibble first.
#[verifier::external_body]
pub(crate) fn hex_encode(data: &[u8]) -> (r: String)
    ensures
        r@ == spec_hex(data@),
{
    hex::encode(data)
}

/// Relies on hex::decode (hex 0.4): succeeds exactly on inputs of even length
/// made of hexadecimal digits of either case, and pairs two digits into each
/// output byte, high nibble first.
#[verifier::external_body]
pub(crate) fn hex_decode(data: &str) -> (r: Option<Vec<u8>>)
    ensures
        r is Some <==> spec_is_hex_bytes(data.spec_bytes()),
        r matches Some(v) ==> v@ == spec_unhex(data.spec_bytes()),
{
    match hex::decode(data) {
        Ok(v) => Some(v),
        Err(_) => None,
    }
}

/// Relies on ed25519_dalek::SigningKey::sign (ed25519-dalek 2.2): RFC 8032
/// Ed25519 signing, deterministic in the 32-byte secret seed and the message,
/// with a 64-byte signature and no failure path.
#[verifier::external_body]
pub(crate) fn ed25519_sign(seed: &[u8], msg: &[u8]) -> (sig: Vec<u8>)
    requires
        seed@.len() == 32,
    ensures
        sig@ == ed25519_sig_of(seed@, msg@),
        sig@.len() == 64,
{
    let mut s = [0u8; 32];
    s.copy_from_slice(seed);
    let key = ed25519_dalek::SigningKey::from_bytes(&s);
    key.sign(msg).to_bytes().to_vec()
}

/// Relies on ed25519_dalek::SigningKey::verifying_key (ed25519-dalek 2.2):
/// the 32-byte public key is a function of the 32-byte secret seed alone.
#[verifier::external_body]
pub(crate) fn ed25519_public_key(seed: &[u8]) -> (pk: Vec<u8>)
    requires
        seed@.len() == 32,
    ensures
        pk@ == ed25519_pub_of(seed@),
        pk@.len() == 32,
{
    let mut s = [0u8; 32];
    s.copy_from_slice(seed);
    let key = ed25519_dalek::SigningKey::from_bytes(&s);
    key.verifying_key().to_bytes().to_vec()
}

} // verus!
