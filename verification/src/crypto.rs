//! The cryptographic primitives the seal verifier relies on.
//!
//! A digest or a signature check is a function of its input bytes alone;
//! each is given a name here, and the wrappers promise no more than that
//! the outside call computes the named result.

use vstd::prelude::*;

verus! {

/// The SHA-256 digest of a byte string.
pub uninterp spec fn sha256_of(data: Seq<u8>) -> Seq<u8>;

/// The SHA-512 digest of a byte string.
pub uninterp spec fn sha512_of(data: Seq<u8>) -> Seq<u8>;

/// Whether `sig` (64 compact bytes) is a valid ECDSA signature over the
/// 32-byte `digest` under the public key encoded by `key`, on the
/// secp256k1 curve.
pub uninterp spec fn ecdsa_accepts(sig: Seq<u8>, digest: Seq<u8>, key: Seq<u8>) -> bool;

/// Relies on sha2::Sha256::digest: a 32-byte digest of the input alone.
#[verifier::external_body]
pub fn sha256(data: &Vec<u8>) -> (r: Vec<u8>)
    ensures
        r@ == sha256_of(data@),
        r@.len() == 32,
{
    <sha2::Sha256 as sha2::Digest>::digest(data.as_slice()).to_vec()
}

/// Relies on sha2::Sha512::digest: a 64-byte digest of the input alone.
#[verifier::external_body]
pub fn sha512(data: &Vec<u8>) -> (r: Vec<u8>)
    ensures
        r@ == sha512_of(data@),
        r@.len() == 64,
{
    <sha2::Sha512 as sha2::Digest>::digest(data.as_slice()).to_vec()
}

/// Relies on secp256k1::ecdsa::verify, with Signature::from_compact,
/// PublicKey::from_slice and Message::from_digest reading the byte
/// encodings: acceptance is deterministic in the signature, digest and key
/// bytes, and bytes that encode no signature, digest or key verify as
/// false.
#[verifier::external_body]
pub fn ecdsa_check(sig: &Vec<u8>, digest: &Vec<u8>, key: &Vec<u8>) -> (r: bool)
    ensures
        r == ecdsa_accepts(sig@, digest@, key@),
{
    let s = secp256k1::ecdsa::Signature::from_compact(sig.as_slice());
    let k = secp256k1::PublicKey::from_slice(key.as_slice());
    let d = <[u8; 32]>::try_from(digest.as_slice());
    match (s, k, d) {
        (Ok(s), Ok(k), Ok(d)) => {
            secp256k1::ecdsa::verify(&s, secp256k1::Message::from_digest(d), &k).is_ok()
        },
        _ => false,
    }
}

} // verus!
