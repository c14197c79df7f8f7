//! SHA-256 and Ed25519: what the library takes from the outside crates `sha2` and
//! `ed25519-dalek`, under names that the contracts use.

use crate::bytes::{be_value, leading_u128};
use ed25519_dalek::{Signature, Signer, SigningKey, Verifier, VerifyingKey};
use sha2::{Digest, Sha256};
use vstd::prelude::*;

verus! {

/// The SHA-256 digest of a message.
pub uninterp spec fn sha256_of(message: Seq<u8>) -> Seq<u8>;

/// The Ed25519 public key that belongs to a secret seed.
pub uninterp spec fn ed25519_public(secret: Seq<u8>) -> Seq<u8>;

/// The Ed25519 signature that a secret seed makes of a message.
pub uninterp spec fn ed25519_signature(secret: Seq<u8>, message: Seq<u8>) -> Seq<u8>;

/// Whether 32 bytes are an Ed25519 public key.
pub uninterp spec fn ed25519_key_valid(key: Seq<u8>) -> bool;

/// Whether a public key accepts a signature of a message.
pub uninterp spec fn ed25519_accepts(key: Seq<u8>, message: Seq<u8>, signature: Seq<u8>) -> bool;

/// Whether a public key accepts a signature of a message under the strict rules, which refuse
/// keys and signatures of small order.
pub uninterp spec fn ed25519_accepts_strictly(
    key: Seq<u8>,
    message: Seq<u8>,
    signature: Seq<u8>,
) -> bool;

/// Calls `sha2::Sha256::digest`. The digest is a function of the message; `sha256_of` names it.
#[verifier::external_body]
pub(crate) fn sha256(message: &[u8]) -> (digest: [u8; 32])
    ensures
        digest@ == sha256_of(message@),
{
    Sha256::digest(message).into()
}

/// Calls `ed25519_dalek::SigningKey::from_bytes` and `verifying_key`. The public key is a
/// function of the secret seed; `ed25519_public` names it.
#[verifier::external_body]
pub(crate) fn public_key(secret: &[u8; 32]) -> (key: [u8; 32])
    ensures
        key@ == ed25519_public(secret@),
{
    SigningKey::from_bytes(secret).verifying_key().to_bytes()
}

/// Calls `ed25519_dalek::SigningKey::sign`, which is deterministic: `ed25519_signature` names
/// the result. It has 64 bytes, and the seed's own public key accepts it. Nothing is said of the
/// strict rules, which a signature could in principle fail.
#[verifier::external_body]
pub(crate) fn sign(secret: &[u8; 32], message: &[u8]) -> (signature: Vec<u8>)
    ensures
        signature@ == ed25519_signature(secret@, message@),
        signature@.len() == 64,
        ed25519_accepts(ed25519_public(secret@), message@, signature@),
{
    SigningKey::from_bytes(secret).sign(message).to_bytes().to_vec()
}

/// Calls `ed25519_dalek::VerifyingKey::from_bytes`, which decodes a curve point or fails;
/// `ed25519_key_valid` names whether it succeeds.
#[verifier::external_body]
pub(crate) fn is_public_key(key: &[u8; 32]) -> (valid: bool)
    ensures
        valid == ed25519_key_valid(key@),
{
    VerifyingKey::from_bytes(key).is_ok()
}

/// Calls `ed25519_dalek::VerifyingKey::verify` on a key and a signature decoded from bytes;
/// `ed25519_accepts` names the outcome, which is a refusal where either fails to decode. A
/// signature that decodes has 64 bytes.
#[verifier::external_body]
pub(crate) fn verify(key: &[u8; 32], message: &[u8], signature: &[u8]) -> (accepted: bool)
    ensures
        accepted == ed25519_accepts(key@, message@, signature@),
        accepted ==> signature@.len() == 64 && ed25519_key_valid(key@),
{
    match (VerifyingKey::from_bytes(key), Signature::from_slice(signature)) {
        (Ok(key), Ok(signature)) => key.verify(message, &signature).is_ok(),
        _ => false,
    }
}

/// Calls `ed25519_dalek::VerifyingKey::verify_strict` on a key and a signature decoded from
/// bytes; `ed25519_accepts_strictly` names the outcome, which is a refusal where either fails to
/// decode. A signature that decodes has 64 bytes.
#[verifier::external_body]
pub(crate) fn verify_strict(key: &[u8; 32], message: &[u8], signature: &[u8]) -> (accepted: bool)
    ensures
        accepted == ed25519_accepts_strictly(key@, message@, signature@),
        accepted ==> signature@.len() == 64 && ed25519_key_valid(key@),
{
    match (VerifyingKey::from_bytes(key), Signature::from_slice(signature)) {
        (Ok(key), Ok(signature)) => key.verify_strict(message, &signature).is_ok(),
        _ => false,
    }
}

/// The identifier in the first sixteen bytes of a message's digest.
pub open spec fn digest_id(message: Seq<u8>) -> u128 {
    be_value(sha256_of(message).subrange(0, 16)) as u128
}

/// The identifier in the first sixteen bytes of a message's digest.
pub fn id_of(message: &[u8]) -> (id: u128)
    ensures
        id == digest_id(message@),
{
    leading_u128(&sha256(message))
}

} // verus!
