use merkle_engine::checkpoint::{u64_be_bytes, SignerWrapper};
use merkle_engine::error::EngineError;
use merkle_engine::rpc::MerkleEngineService;
use merkle_engine::tree::MerkleTree;

use ed25519_dalek::{Signature, SigningKey, Verifier};
use sha2::{Digest, Sha256};

const SEED_HEX: &str = "0123456789abcdef0123456789abcdef0123456789abcdef0123456789abcdef";

fn seed_bytes() -> [u8; 32] {
    let v = hex::decode(SEED_HEX).unwrap();
    let mut s = [0u8; 32];
    s.copy_from_slice(&v);
    s
}

fn alpha_delta_root() -> String {
    let mut t = MerkleTree::new();
    for r in [b"alpha".as_slice(), b"beta", b"gamma", b"delta"] {
        t.append(r);
    }
    t.root()
}

#[test]
fn u64_be_bytes_matches_std() {
    for x in [0u64, 1, 4, 255, 256, 0x0102030405060708, u64::MAX] {
        assert_eq!(u64_be_bytes(x), x.to_be_bytes().to_vec());
    }
}

#[test]
fn checkpoint_round_trip() {
    let signer = SignerWrapper::from_seed_hex(SEED_HEX).unwrap();
    let root = alpha_delta_root();
    let sth = signer.sign_sth(4, &root);

    assert_eq!(sth.tree_size, 4);
    assert_eq!(sth.root_hash, root);

    let verifying_key = SigningKey::from_bytes(&seed_bytes()).verifying_key();
    let signature = Signature::from_slice(&hex::decode(&sth.signature).unwrap()).unwrap();

    // The signature is valid for exactly the signed (size, root) encoding.
    let mut message = 4u64.to_be_bytes().to_vec();
    message.extend_from_slice(root.as_bytes());
    assert!(verifying_key.verify(&message, &signature).is_ok());

    // ... and for no other pair.
    let mut other_size = 5u64.to_be_bytes().to_vec();
    other_size.extend_from_slice(root.as_bytes());
    assert!(verifying_key.verify(&other_size, &signature).is_err());

    let mut other_root = 4u64.to_be_bytes().to_vec();
    let mut t = MerkleTree::new();
    t.append(b"alpha");
    other_root.extend_from_slice(t.root().as_bytes());
    assert!(verifying_key.verify(&other_root, &signature).is_err());
}

#[test]
fn key_id_is_public_key_fingerprint() {
    let signer = SignerWrapper::from_seed_hex(SEED_HEX).unwrap();
    let sth_a = signer.sign_sth(1, "aa");
    let sth_b = signer.sign_sth(2, "bb");

    let public_key = SigningKey::from_bytes(&seed_bytes()).verifying_key();
    let expected = hex::encode(Sha256::digest(public_key.to_bytes()));
    // The fingerprint depends on the key alone, not on what was signed.
    assert_eq!(sth_a.key_id, expected);
    assert_eq!(sth_b.key_id, expected);
    assert_ne!(sth_a.signature, sth_b.signature);
}

#[test]
fn signing_is_deterministic() {
    let signer = SignerWrapper::from_seed_hex(SEED_HEX).unwrap();
    let first = signer.sign_sth(7, "cafe");
    let second = signer.sign_sth(7, "cafe");
    assert_eq!(first.signature, second.signature);
    assert_eq!(first.key_id, second.key_id);
}

#[test]
fn seed_hex_with_uppercase_is_accepted() {
    let upper = SEED_HEX.to_uppercase();
    let a = SignerWrapper::from_seed_hex(SEED_HEX).unwrap();
    let b = SignerWrapper::from_seed_hex(&upper).unwrap();
    assert_eq!(a.sign_sth(3, "dd").signature, b.sign_sth(3, "dd").signature);
}

#[test]
fn bad_seed_material_is_rejected() {
    // Not hexadecimal at all.
    let r = SignerWrapper::from_seed_hex("zz");
    assert!(matches!(r, Err(EngineError::InvalidKeyMaterial(_))));
    // Odd length.
    let r = SignerWrapper::from_seed_hex("abc");
    assert!(matches!(r, Err(EngineError::InvalidKeyMaterial(_))));
    // Valid hexadecimal of the wrong length.
    let r = SignerWrapper::from_seed_hex("abcd");
    assert!(matches!(r, Err(EngineError::InvalidKeyMaterial(_))));
    // Too long.
    let long = SEED_HEX.repeat(2);
    let r = SignerWrapper::from_seed_hex(&long);
    assert!(matches!(r, Err(EngineError::InvalidKeyMaterial(_))));
}

#[test]
fn service_starts_with_empty_tree() {
    let mut service = MerkleEngineService::new();
    assert_eq!(service.tree.root(), "");
    service.tree.append(b"record");
    assert_eq!(service.tree.root().len(), 64);
}
