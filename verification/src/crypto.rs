//! The two cryptographic primitives the protocol leans on: the chain's
//! standard 256-bit hash and recoverable ECDSA signing over secp256k1.
//!
//! Both are outside calls; their results are named, never re-derived. Every
//! other step of the protocol is verified against those names.

use vstd::prelude::*;
use crate::errors::ProtocolError;

verus! {

/// The 32-byte digest that the chain's standard 256-bit hash (blake2b with
/// the chain's personalization) assigns to `data`.
pub uninterp spec fn blake2b256_of(data: Seq<u8>) -> Seq<u8>;

/// The 65-byte recoverable signature (64-byte compact value, then one
/// recovery-id byte) that deterministic ECDSA over secp256k1 assigns to a
/// 32-byte digest under a 32-byte secret key.
pub uninterp spec fn recoverable_signature_of(digest: Seq<u8>, key: Seq<u8>) -> Seq<u8>;

/// The value of a big-endian byte string.
pub open spec fn be_value(s: Seq<u8>) -> int
    decreases s.len(),
{
    if s.len() == 0 {
        0
    } else {
        be_value(s.drop_last()) * 256 + s.last()
    }
}

/// The order of the secp256k1 group.
pub open spec fn secp256k1_order() -> int {
    0xFFFFFFFFFFFFFFFFFFFFFFFFFFFFFFFEBAAEDCE6AF48A03BBFD25E8CD0364141int
}

/// A 32-byte string is a valid secret key when its value lies strictly
/// between zero and the group order.
pub open spec fn is_valid_secret_key(key: Seq<u8>) -> bool {
    0 < be_value(key) < secp256k1_order()
}

#[verifier::external_type_specification]
#[verifier::external_body]
pub struct ExSecpError(secp256k1::Error);

/// Relies on ckb_hash::blake2b_256: the 32-byte blake2b digest, personalized
/// for the chain, of exactly the bytes handed in.
#[verifier::external_body]
pub(crate) fn blake2b256(data: &Vec<u8>) -> (r: Vec<u8>)
    ensures
        r@ == blake2b256_of(data@),
        r@.len() == 32,
{
    ckb_hash::blake2b_256(data.as_slice()).to_vec()
}

/// Relies on secp256k1: SecretKey::from_secret_bytes accepts exactly the keys
/// whose value lies in the group (strictly between zero and the order), and
/// RecoverableSignature::sign_ecdsa_recoverable signs deterministically (RFC
/// 6979), so the signature is a function of the digest and the key alone;
/// serialize_compact yields the 64 compact bytes and a recovery id below 4.
#[verifier::external_body]
fn sign_recoverable_raw(digest: &Vec<u8>, key: &Vec<u8>) -> (r: Result<Vec<u8>, secp256k1::Error>)
    requires
        digest@.len() == 32,
        key@.len() == 32,
    ensures
        r is Ok <==> is_valid_secret_key(key@),
        r is Ok ==> r.unwrap()@ == recoverable_signature_of(digest@, key@)
            && r.unwrap()@.len() == 65 && r.unwrap()@[64] < 4,
{
    let mut d = [0u8; 32];
    d.copy_from_slice(digest.as_slice());
    let mut k = [0u8; 32];
    k.copy_from_slice(key.as_slice());
    let sk = match secp256k1::SecretKey::from_secret_bytes(k) {
        Ok(sk) => sk,
        Err(e) => return Err(e),
    };
    let msg = secp256k1::Message::from_digest(d);
    let sig = secp256k1::ecdsa::RecoverableSignature::sign_ecdsa_recoverable(msg, &sk);
    let (recovery_id, compact) = sig.serialize_compact();
    let mut out = compact.to_vec();
    out.push(u8::from(recovery_id));
    Ok(out)
}

/// Signs a 32-byte digest with a 32-byte secret key, yielding the 65-byte
/// recoverable signature.
///
/// Fails with `SignFailed` exactly when the key bytes are not a valid secret
/// key; signing itself never fails.
pub fn sign_digest(digest: &Vec<u8>, key: &Vec<u8>) -> (r: Result<Vec<u8>, ProtocolError>)
    requires
        digest@.len() == 32,
        key@.len() == 32,
    ensures
        r is Ok <==> is_valid_secret_key(key@),
        r is Ok ==> r.unwrap()@ == recoverable_signature_of(digest@, key@)
            && r.unwrap()@.len() == 65,
        r is Err ==> r.unwrap_err() == ProtocolError::SignFailed,
{
    match sign_recoverable_raw(digest, key) {
        Ok(sig) => Ok(sig),
        Err(_) => Err(ProtocolError::SignFailed),
    }
}

} // verus!
