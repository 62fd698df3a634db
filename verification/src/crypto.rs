//! SHA-256 and Ed25519 as this library uses them, through `sha2`, `ed25519-dalek` and
//! `getrandom`.

use ed25519_dalek::{Signer, Verifier};
use sha2::Digest;
use vstd::prelude::*;

verus! {

/// The SHA-256 digest of a byte string.
pub uninterp spec fn sha256_of(data: Seq<u8>) -> Seq<u8>;

/// The Ed25519 public key (compressed point) that belongs to a 32-byte secret seed.
pub uninterp spec fn ed25519_public_of(seed: Seq<u8>) -> Seq<u8>;

/// The Ed25519 signature that a 32-byte secret seed makes over a message.
pub uninterp spec fn ed25519_signature_of(seed: Seq<u8>, msg: Seq<u8>) -> Seq<u8>;

/// Whether 32 bytes decompress to a point of the curve, so that they can serve as a public key.
pub uninterp spec fn ed25519_key_decodes(public: Seq<u8>) -> bool;

/// Whether a public key accepts a signature over a message.
pub uninterp spec fn ed25519_accepts(public: Seq<u8>, msg: Seq<u8>, sig: Seq<u8>) -> bool;

/// Calls `sha2::Sha256::digest`. Claims that the result is the SHA-256 digest of `data`.
#[verifier::external_body]
pub(crate) fn sha256(data: &[u8]) -> (r: [u8; 32])
    ensures
        r@ == sha256_of(data@),
{
    sha2::Sha256::digest(data).into()
}

/// Calls `ed25519_dalek::SigningKey::from_bytes` and `verifying_key`. Claims that the result is the
/// public key of `seed`, and that this key decodes as a point (it is computed as one).
#[verifier::external_body]
pub(crate) fn ed25519_public_key(seed: &[u8; 32]) -> (r: [u8; 32])
    ensures
        r@ == ed25519_public_of(seed@),
        ed25519_key_decodes(r@),
{
    ed25519_dalek::SigningKey::from_bytes(seed).verifying_key().to_bytes()
}

/// Calls `Signer::sign` of `ed25519_dalek::SigningKey` (deterministic RFC 8032 signing). Claims that
/// the result is the signature of `seed` over `msg`, and that the seed's own public key accepts it.
#[verifier::external_body]
pub(crate) fn ed25519_sign(seed: &[u8; 32], msg: &[u8]) -> (r: [u8; 64])
    ensures
        r@ == ed25519_signature_of(seed@, msg@),
        ed25519_accepts(ed25519_public_of(seed@), msg@, r@),
{
    ed25519_dalek::SigningKey::from_bytes(seed).sign(msg).to_bytes()
}

/// Calls `ed25519_dalek::VerifyingKey::from_bytes`. Claims that the result says whether the bytes
/// decode as a public key.
#[verifier::external_body]
pub(crate) fn ed25519_key_ok(public: &[u8; 32]) -> (r: bool)
    ensures
        r == ed25519_key_decodes(public@),
{
    ed25519_dalek::VerifyingKey::from_bytes(public).is_ok()
}

/// Calls `Verifier::verify` of `ed25519_dalek::VerifyingKey` on a decodable key. Claims that the
/// result says whether the key accepts `sig` over `msg`.
#[verifier::external_body]
pub(crate) fn ed25519_verify(public: &[u8; 32], msg: &[u8], sig: &[u8; 64]) -> (r: bool)
    requires
        ed25519_key_decodes(public@),
    ensures
        r == ed25519_accepts(public@, msg@, sig@),
{
    match ed25519_dalek::VerifyingKey::from_bytes(public) {
        Ok(vk) => vk.verify(msg, &ed25519_dalek::Signature::from_bytes(sig)).is_ok(),
        Err(_) => false,
    }
}

/// Calls `getrandom::getrandom` on 32 bytes. The bytes are random, and the call can fail (its
/// error text is returned): nothing more is claimed.
#[verifier::external_body]
pub(crate) fn random_bytes_32() -> Result<[u8; 32], String> {
    let mut raw = [0u8; 32];
    getrandom::getrandom(&mut raw).map(|_| raw).map_err(|e| e.to_string())
}

} // verus!
