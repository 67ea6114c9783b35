use vstd::prelude::*;

verus! {

/// The SHA3-256 digest of a message.
pub uninterp spec fn sha3_256_of(m: Seq<u8>) -> Seq<u8>;

/// The Ed25519 public key of a 32-byte secret key.
pub uninterp spec fn ed25519_public_key(sk: Seq<u8>) -> Seq<u8>;

/// The Ed25519 signature of a message under a 32-byte secret key.
pub uninterp spec fn ed25519_signature(sk: Seq<u8>, m: Seq<u8>) -> Seq<u8>;

/// Whether a signature checks against a public key and a message.
pub uninterp spec fn ed25519_accepts(pk: Seq<u8>, m: Seq<u8>, sig: Seq<u8>) -> bool;

/// Relies on `sha3::Sha3_256` through `Digest::digest`: a 32-byte digest that
/// depends on the message alone.
#[verifier::external_body]
pub(crate) fn sha3_256(m: &Vec<u8>) -> (r: Vec<u8>)
    ensures
        r@ == sha3_256_of(m@),
        r@.len() == 32,
{
    <sha3::Sha3_256 as sha3::Digest>::digest(m.as_slice()).to_vec()
}

/// Relies on `ed25519_dalek::SigningKey::from_bytes` and `verifying_key`: the
/// 32-byte public key that a secret key determines.
#[verifier::external_body]
pub(crate) fn derive_public_key(sk: &Vec<u8>) -> (r: Vec<u8>)
    requires
        sk@.len() == 32,
    ensures
        r@ == ed25519_public_key(sk@),
        r@.len() == 32,
{
    let secret: [u8; 32] = sk.as_slice().try_into().unwrap();
    ed25519_dalek::SigningKey::from_bytes(&secret).verifying_key().to_bytes().to_vec()
}

/// Relies on `ed25519_dalek::SigningKey::sign`: a 64-byte signature, which
/// Ed25519 computes from the key and the message alone, and which
/// `VerifyingKey::verify` accepts under the key's public key.
#[verifier::external_body]
pub(crate) fn sign_bytes(sk: &Vec<u8>, m: &Vec<u8>) -> (r: Vec<u8>)
    requires
        sk@.len() == 32,
    ensures
        r@ == ed25519_signature(sk@, m@),
        r@.len() == 64,
        ed25519_accepts(ed25519_public_key(sk@), m@, r@),
{
    let secret: [u8; 32] = sk.as_slice().try_into().unwrap();
    let key = ed25519_dalek::SigningKey::from_bytes(&secret);
    <ed25519_dalek::SigningKey as ed25519_dalek::Signer<ed25519_dalek::Signature>>::sign(
        &key,
        m.as_slice(),
    ).to_bytes().to_vec()
}

/// Relies on `ed25519_dalek::VerifyingKey::from_bytes` and `verify`: whether
/// the signature checks; a key that is no curve point checks nothing.
#[verifier::external_body]
pub(crate) fn verify_bytes(pk: &Vec<u8>, m: &Vec<u8>, sig: &Vec<u8>) -> (r: bool)
    requires
        pk@.len() == 32,
        sig@.len() == 64,
    ensures
        r == ed25519_accepts(pk@, m@, sig@),
{
    let key: [u8; 32] = pk.as_slice().try_into().unwrap();
    let sig_bytes: [u8; 64] = sig.as_slice().try_into().unwrap();
    let signature = ed25519_dalek::Signature::from_bytes(&sig_bytes);
    match ed25519_dalek::VerifyingKey::from_bytes(&key) {
        Ok(vk) => <ed25519_dalek::VerifyingKey as ed25519_dalek::Verifier<
            ed25519_dalek::Signature,
        >>::verify(&vk, m.as_slice(), &signature).is_ok(),
        Err(_) => false,
    }
}

} // verus!
