use vstd::prelude::*;

use crate::bcs::{raw_transaction_bcs, raw_transaction_bytes};
use crate::crypto::{
    derive_public_key, ed25519_accepts, ed25519_public_key, ed25519_signature, sha3_256,
    sha3_256_of, sign_bytes, verify_bytes,
};
use crate::encode::append_bytes;
use crate::error::TxError;
use crate::transaction::RawTransaction;

verus! {

/// `APTOS::RawTransaction`, whose digest prefixes every signed message.
pub open spec fn salt_text() -> Seq<u8> {
    seq![
        65u8, 80u8, 84u8, 79u8, 83u8, 58u8, 58u8, 82u8, 97u8, 119u8, 84u8, 114u8, 97u8, 110u8,
        115u8, 97u8, 99u8, 116u8, 105u8, 111u8, 110u8,
    ]
}

/// The bytes that are signed: the salt's digest, then the raw transaction.
pub open spec fn signing_message_of(r: RawTransaction) -> Seq<u8> {
    sha3_256_of(salt_text()) + raw_transaction_bcs(r)
}

/// A raw transaction with the public key and the signature that authorise it.
#[derive(Debug)]
pub struct SignedTransaction {
    pub raw: RawTransaction,
    pub public_key: Vec<u8>,
    pub signature: Vec<u8>,
}

fn salt() -> (r: Vec<u8>)
    ensures
        r@ == salt_text(),
{
    let mut v: Vec<u8> = Vec::new();
    v.push(65u8);
    v.push(80u8);
    v.push(84u8);
    v.push(79u8);
    v.push(83u8);
    v.push(58u8);
    v.push(58u8);
    v.push(82u8);
    v.push(97u8);
    v.push(119u8);
    v.push(84u8);
    v.push(114u8);
    v.push(97u8);
    v.push(110u8);
    v.push(115u8);
    v.push(97u8);
    v.push(99u8);
    v.push(116u8);
    v.push(105u8);
    v.push(111u8);
    v.push(110u8);
    assert(v@ =~= salt_text());
    v
}

/// The message that a signature over `raw` covers.
pub fn signing_message(raw: &RawTransaction) -> (r: Vec<u8>)
    ensures
        r@ == signing_message_of(*raw),
{
    let mut out = sha3_256(&salt());
    let body = raw_transaction_bytes(raw);
    append_bytes(&mut out, &body);
    out
}

/// Signs a raw transaction with a 32-byte Ed25519 secret key.
pub fn sign_transaction(raw: RawTransaction, private_key: &Vec<u8>) -> (r: Result<SignedTransaction, TxError>)
    ensures
        r is Err <==> private_key@.len() != 32,
        r matches Err(e) ==> e == TxError::InvalidKey,
        r matches Ok(st) ==> ({
            &&& st.raw == raw
            &&& st.public_key@ == ed25519_public_key(private_key@)
            &&& st.signature@ == ed25519_signature(private_key@, signing_message_of(raw))
            &&& st.public_key@.len() == 32
            &&& st.signature@.len() == 64
            &&& ed25519_accepts(st.public_key@, signing_message_of(raw), st.signature@)
        }),
{
    if private_key.len() != 32 {
        return Err(TxError::InvalidKey);
    }
    let msg = signing_message(&raw);
    let signature = sign_bytes(private_key, &msg);
    let public_key = derive_public_key(private_key);
    Ok(SignedTransaction { raw, public_key, signature })
}

/// Whether the signature of a signed transaction checks against its public key.
pub fn verify_signed_transaction(st: &SignedTransaction) -> (r: bool)
    ensures
        r == (st.public_key@.len() == 32 && st.signature@.len() == 64 && ed25519_accepts(
            st.public_key@,
            signing_message_of(st.raw),
            st.signature@,
        )),
{
    if st.public_key.len() != 32 || st.signature.len() != 64 {
        return false;
    }
    let msg = signing_message(&st.raw);
    verify_bytes(&st.public_key, &msg, &st.signature)
}

} // verus!
