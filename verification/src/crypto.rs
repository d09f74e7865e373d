//! The cryptography that the audit log rests on: SHA-256, Ed25519 and the random source of
//! the operating system.
//!
//! What stands here is trusted, not proved. Keys and signatures are plain bytes.

use ed25519_dalek::{Signature, Signer, SigningKey, Verifier, VerifyingKey};
use sha2::{Digest, Sha256};
use vstd::prelude::*;

verus! {

/// The error of the `getrandom` crate.
#[verifier::external_type_specification]
#[verifier::external_body]
pub struct ExGetrandomError(getrandom::Error);

/// The SHA-256 digest of the data.
pub uninterp spec fn sha256_digest(data: Seq<u8>) -> [u8; 32];

/// The Ed25519 public key that belongs to a secret key.
pub uninterp spec fn ed25519_public(secret: Seq<u8>) -> [u8; 32];

/// The Ed25519 signature of the message under a secret key.
pub uninterp spec fn ed25519_signature(secret: Seq<u8>, message: Seq<u8>) -> [u8; 64];

/// Whether Ed25519 accepts the signature of the message under a public key.
pub uninterp spec fn ed25519_accepts(
    public: Seq<u8>,
    message: Seq<u8>,
    signature: Seq<u8>,
) -> bool;

/// `Sha256::digest` of the `sha2` crate: the digest is a function of the data alone, and
/// `sha256_digest` names it.
#[verifier::external_body]
pub(crate) fn sha256(data: &[u8]) -> (res: [u8; 32])
    ensures
        res == sha256_digest(data@),
{
    Sha256::digest(data).into()
}

/// `SigningKey::verifying_key` of the `ed25519-dalek` crate: the public key is a function of
/// the secret key alone, and `ed25519_public` names it.
#[verifier::external_body]
pub(crate) fn public_key_of(secret: &[u8; 32]) -> (res: [u8; 32])
    ensures
        res == ed25519_public(secret@),
{
    SigningKey::from_bytes(secret).verifying_key().to_bytes()
}

/// `SigningKey::sign` of the `ed25519-dalek` crate. Its signatures carry no randomness: the
/// signature is a function of the secret key and the message, and `ed25519_signature` names
/// it. The public key that belongs to the secret key accepts it.
#[verifier::external_body]
pub(crate) fn sign(secret: &[u8; 32], message: &[u8]) -> (res: [u8; 64])
    ensures
        res == ed25519_signature(secret@, message@),
        ed25519_accepts(ed25519_public(secret@)@, message@, res@),
{
    SigningKey::from_bytes(secret).sign(message).to_bytes()
}

/// `VerifyingKey::verify` of the `ed25519-dalek` crate: the answer is a function of the public
/// key, the message and the signature, and `ed25519_accepts` names it. Bytes that are no
/// public key accept nothing.
#[verifier::external_body]
pub(crate) fn accepts(public: &[u8; 32], message: &[u8], signature: &[u8]) -> (res: bool)
    requires
        signature@.len() == 64,
    ensures
        res == ed25519_accepts(public@, message@, signature@),
{
    match (VerifyingKey::from_bytes(public), Signature::from_slice(signature)) {
        (Ok(key), Ok(signature)) => key.verify(message, &signature).is_ok(),
        _ => false,
    }
}

/// `getrandom` of the crate of that name: bytes from the random source of the operating
/// system, or the error of that source. Nothing is promised of the bytes.
#[verifier::external_body]
pub(crate) fn random_bytes() -> (res: Result<[u8; 32], getrandom::Error>) {
    let mut bytes = [0u8; 32];
    getrandom::getrandom(&mut bytes).map(|_| bytes)
}

/// Whether this is what a draw from the random source of the operating system can give. Only a
/// draw shows it of a value.
pub closed spec fn is_draw(drawn: Result<[u8; 32], getrandom::Error>) -> bool {
    call_ensures(random_bytes, (), drawn)
}

/// Draws bytes for a key from the random source of the operating system.
pub(crate) fn draw() -> (res: Result<[u8; 32], getrandom::Error>)
    ensures
        is_draw(res),
{
    random_bytes()
}

/// A draw is what the random source gave, and nothing else.
pub(crate) proof fn law_draw_comes_from_the_source(drawn: Result<[u8; 32], getrandom::Error>)
    ensures
        is_draw(drawn) <==> call_ensures(random_bytes, (), drawn),
{
}

} // verus!
