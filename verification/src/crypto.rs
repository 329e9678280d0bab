//! The cryptographic primitives behind the vault: Ed25519 signing and
//! verification, and fresh key material. The primitives themselves are
//! outside calls; the library states only what their sources document.
use vstd::prelude::*;

verus! {

/// The Ed25519 verifying key derived from 32 bytes of secret key material.
pub uninterp spec fn ed25519_public_key(secret: Seq<u8>) -> Seq<u8>;

/// The Ed25519 signature of a message under a secret key. Signing follows
/// RFC 8032 and is a function of the secret key and the message alone.
pub uninterp spec fn ed25519_signature(secret: Seq<u8>, msg: Seq<u8>) -> Seq<u8>;

/// Whether a signature verifies for a message under the given verifying-key
/// bytes; false when the key or signature bytes are not well-formed.
pub uninterp spec fn ed25519_verify(public_key: Seq<u8>, msg: Seq<u8>, sig: Seq<u8>) -> bool;

/// Relies on `ed25519_dalek::SigningKey::verifying_key`: the verifying key is
/// derived from the secret key alone and is 32 bytes long.
#[verifier::external_body]
pub(crate) fn derive_public_key(secret: &Vec<u8>) -> (r: Vec<u8>)
    requires
        secret@.len() == 32,
    ensures
        r@ == ed25519_public_key(secret@),
        r@.len() == 32,
{
    let arr: [u8; 32] = secret.as_slice().try_into().unwrap();
    let key = ed25519_dalek::SigningKey::from_bytes(&arr);
    key.verifying_key().to_bytes().to_vec()
}

/// Relies on `ed25519_dalek::Signer::sign` for `SigningKey`: signing is
/// deterministic (RFC 8032), yields 64 bytes, and what it signs verifies
/// under the matching verifying key.
#[verifier::external_body]
pub(crate) fn sign_message(secret: &Vec<u8>, msg: &Vec<u8>) -> (r: Vec<u8>)
    requires
        secret@.len() == 32,
    ensures
        r@ == ed25519_signature(secret@, msg@),
        r@.len() == 64,
        ed25519_verify(ed25519_public_key(secret@), msg@, r@),
{
    let arr: [u8; 32] = secret.as_slice().try_into().unwrap();
    let key = ed25519_dalek::SigningKey::from_bytes(&arr);
    let sig = ed25519_dalek::Signer::sign(&key, msg.as_slice());
    sig.to_bytes().to_vec()
}

/// Relies on `ed25519_dalek::VerifyingKey::verify`: the outcome is a function
/// of the key, message and signature bytes alone; ill-formed key or signature
/// bytes never verify.
#[verifier::external_body]
pub(crate) fn verify_signature(public_key: &Vec<u8>, msg: &Vec<u8>, sig: &Vec<u8>) -> (r: bool)
    ensures
        r == ed25519_verify(public_key@, msg@, sig@),
{
    let Ok(arr) = <&[u8; 32]>::try_from(public_key.as_slice()) else {
        return false;
    };
    let Ok(key) = ed25519_dalek::VerifyingKey::from_bytes(arr) else {
        return false;
    };
    let Ok(sig) = ed25519_dalek::Signature::from_slice(sig.as_slice()) else {
        return false;
    };
    ed25519_dalek::Verifier::verify(&key, msg.as_slice(), &sig).is_ok()
}

/// Relies on `rand::random`: draws 32 bytes of fresh secret key material.
/// Nothing is promised of the drawn value beyond its length. Like an
/// allocation failure, the draw can abort when the operating system's
/// randomness source is unavailable.
#[verifier::external_body]
pub(crate) fn random_secret() -> (r: Vec<u8>)
    ensures
        r@.len() == 32,
{
    rand::random::<[u8; 32]>().to_vec()
}

/// Relies on `rand::random`: draws a 64-bit value. Nothing is promised of
/// it, and the draw can abort when the operating system's randomness source
/// is unavailable.
#[verifier::external_body]
pub(crate) fn random_u64() -> u64 {
    rand::random::<u64>()
}

} // verus!
