//! Ed25519 signing and verification of bundle metadata.

use vstd::prelude::*;
use ed25519_dalek::{Signer, SigningKey, Verifier, VerifyingKey};
use rand::rngs::OsRng;
use crate::bytes::{append_bytes, le_bytes, push_u64_le, lemma_le_bytes_len};
use crate::types::{PublicKey, Signature};

verus! {

/// The public key that belongs to a 32-byte Ed25519 seed.
pub uninterp spec fn ed25519_public_key(seed: Seq<u8>) -> Seq<u8>;

/// The Ed25519 signature that the key made from `seed` gives `message`.
pub uninterp spec fn ed25519_signature(seed: Seq<u8>, message: Seq<u8>) -> Seq<u8>;

/// Whether Ed25519 verification accepts a 64-byte `signature` of `message`
/// under the 32 bytes `public_key`; false where they do not encode a key.
pub uninterp spec fn ed25519_accepts(public_key: Seq<u8>, message: Seq<u8>, signature: Seq<u8>) -> bool;

/// The message that a bundle signature covers: the site identifier, the
/// revision as 8 little-endian bytes, then the root hash.
pub open spec fn bundle_message(site_id: Seq<u8>, revision: u64, root_hash: Seq<u8>) -> Seq<u8> {
    site_id + le_bytes(revision as nat, 8) + root_hash
}

/// What `verify` decides: the signature has 64 bytes and Ed25519 accepts it.
pub open spec fn signature_valid(message: Seq<u8>, signature: Seq<u8>, public_key: Seq<u8>) -> bool {
    signature.len() == 64 && ed25519_accepts(public_key, message, signature)
}

/// Calls `SigningKey::generate` on the operating system's random source and
/// returns the seed. Nothing is claimed of the bytes: they are random.
#[verifier::external_body]
fn ed25519_random_seed() -> (seed: [u8; 32]) {
    SigningKey::generate(&mut OsRng).to_bytes()
}

/// Calls `SigningKey::verifying_key` on the key made from `seed`. Trusted:
/// the result is the public key of that seed.
#[verifier::external_body]
fn ed25519_derive(seed: &[u8; 32]) -> (public_key: [u8; 32])
    ensures
        public_key@ == ed25519_public_key(seed@),
{
    SigningKey::from_bytes(seed).verifying_key().to_bytes()
}

/// Calls `Signer::sign` on the key made from `seed`. Trusted: signing is a
/// function of seed and message, gives 64 bytes, and verification under the
/// seed's public key accepts what it gives.
#[verifier::external_body]
fn ed25519_sign(message: &[u8], seed: &[u8; 32]) -> (signature: Vec<u8>)
    ensures
        signature@ == ed25519_signature(seed@, message@),
        signature@.len() == 64,
        ed25519_accepts(ed25519_public_key(seed@), message@, signature@),
{
    SigningKey::from_bytes(seed).sign(message).to_bytes().to_vec()
}

/// Calls `VerifyingKey::from_bytes` and `Verifier::verify`. Trusted: the
/// result says whether both accept; bytes that are no key give `false`.
#[verifier::external_body]
fn ed25519_verify(message: &[u8], signature: &[u8], public_key: &[u8; 32]) -> (ok: bool)
    requires
        signature@.len() == 64,
    ensures
        ok == ed25519_accepts(public_key@, message@, signature@),
{
    let Ok(key) = VerifyingKey::from_bytes(public_key) else {
        return false;
    };
    let Ok(sig) = ed25519_dalek::Signature::from_slice(signature) else {
        return false;
    };
    key.verify(message, &sig).is_ok()
}

/// The public key of a private key.
pub fn public_key_of(private_key: &[u8; 32]) -> (public_key: PublicKey)
    ensures
        public_key@ == ed25519_public_key(private_key@),
{
    ed25519_derive(private_key)
}

/// Generate a new Ed25519 keypair: the public key, then the private key it belongs to.
pub fn generate_keypair() -> (pair: (PublicKey, [u8; 32]))
    ensures
        pair.0@ == ed25519_public_key(pair.1@),
{
    let seed = ed25519_random_seed();
    let public_key = ed25519_derive(&seed);
    (public_key, seed)
}

/// Sign a message with a private key.
pub fn sign(message: &[u8], private_key: &[u8; 32]) -> (signature: Signature)
    ensures
        signature@ == ed25519_signature(private_key@, message@),
        signature_valid(message@, signature@, ed25519_public_key(private_key@)),
{
    ed25519_sign(message, private_key)
}

/// Verify a signature. A signature whose length is not 64, or a public key
/// that is no valid encoding, gives `false`.
pub fn verify(message: &[u8], signature: &Signature, public_key: &PublicKey) -> (ok: bool)
    ensures
        ok == signature_valid(message@, signature@, public_key@),
{
    if signature.len() != 64 {
        return false;
    }
    ed25519_verify(message, signature.as_slice(), public_key)
}

/// The 72 bytes that a bundle signature covers.
pub fn bundle_signing_message(site_id: &[u8; 32], revision: u64, root_hash: &[u8; 32]) -> (message: Vec<u8>)
    ensures
        message@ == bundle_message(site_id@, revision, root_hash@),
        message@.len() == 72,
{
    let mut message: Vec<u8> = Vec::new();
    append_bytes(&mut message, site_id.as_slice());
    push_u64_le(&mut message, revision);
    append_bytes(&mut message, root_hash.as_slice());
    proof {
        lemma_le_bytes_len(revision as nat, 8);
    }
    message
}

/// Sign bundle metadata for authentication.
pub fn sign_bundle(
    site_id: &[u8; 32],
    revision: u64,
    root_hash: &[u8; 32],
    private_key: &[u8; 32],
) -> (signature: Signature)
    ensures
        signature@ == ed25519_signature(private_key@, bundle_message(site_id@, revision, root_hash@)),
        signature_valid(
            bundle_message(site_id@, revision, root_hash@),
            signature@,
            ed25519_public_key(private_key@),
        ),
{
    let message = bundle_signing_message(site_id, revision, root_hash);
    sign(message.as_slice(), private_key)
}

/// Verify bundle signature.
pub fn verify_bundle(
    site_id: &[u8; 32],
    revision: u64,
    root_hash: &[u8; 32],
    signature: &Signature,
    public_key: &PublicKey,
) -> (ok: bool)
    ensures
        ok == signature_valid(bundle_message(site_id@, revision, root_hash@), signature@, public_key@),
{
    let message = bundle_signing_message(site_id, revision, root_hash);
    verify(message.as_slice(), signature, public_key)
}

} // verus!
