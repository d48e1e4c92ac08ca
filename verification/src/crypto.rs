//! Hashing and ECDSA over secp256k1, as the `bitcoin` crate provides them.
//!
//! Nothing in this file is proved: each function states what the crate's
//! function returns, and the rest of the library is proved from that.

use vstd::prelude::*;

verus! {

/// Length of a HASH160 digest.
pub const HASH_LEN: usize = 20;

/// Length of a transaction digest.
pub const DIGEST_LEN: usize = 32;

/// Length of a secret key.
pub const SECRET_KEY_LEN: usize = 32;

/// Length of a compressed public key.
pub const PUBLIC_KEY_LEN: usize = 33;

/// Length of a compact signature.
pub const SIGNATURE_LEN: usize = 64;

/// HASH160 (RIPEMD160 of SHA256) of a byte string.
pub uninterp spec fn spec_hash160(data: Seq<u8>) -> Seq<u8>;

/// Double SHA256 of a byte string.
pub uninterp spec fn spec_sha256d(data: Seq<u8>) -> Seq<u8>;

/// The compressed public key of a secret key, where the bytes are a valid
/// secret key.
pub uninterp spec fn spec_public_key(secret: Seq<u8>) -> Option<Seq<u8>>;

/// The deterministic (RFC 6979) compact signature of a digest, where the
/// secret key is valid and the digest has 32 bytes.
pub uninterp spec fn spec_ecdsa_sign(secret: Seq<u8>, digest: Seq<u8>) -> Option<Seq<u8>>;

/// Whether a compact signature verifies for a digest under a public key.
pub uninterp spec fn spec_ecdsa_verify(public_key: Seq<u8>, digest: Seq<u8>, signature: Seq<u8>) -> bool;

/// The bytes that an optional byte string holds.
pub open spec fn option_view(value: Option<Vec<u8>>) -> Option<Seq<u8>> {
    match value {
        Some(bytes) => Some(bytes@),
        None => None,
    }
}

/// `bitcoin::hashes::hash160::Hash::hash`: the result is the HASH160 of the
/// input, 20 bytes long.
#[verifier::external_body]
pub(crate) fn hash160(data: &[u8]) -> (digest: Vec<u8>)
    ensures
        digest@ == spec_hash160(data@),
        digest@.len() == HASH_LEN,
{
    let hash = <bitcoin::hashes::hash160::Hash as bitcoin::hashes::Hash>::hash(data);
    <bitcoin::hashes::hash160::Hash as bitcoin::hashes::Hash>::to_byte_array(hash).to_vec()
}

/// `bitcoin::hashes::sha256d::Hash::hash`: the result is the double SHA256
/// of the input, 32 bytes long.
#[verifier::external_body]
pub(crate) fn sha256d(data: &[u8]) -> (digest: Vec<u8>)
    ensures
        digest@ == spec_sha256d(data@),
        digest@.len() == DIGEST_LEN,
{
    let hash = <bitcoin::hashes::sha256d::Hash as bitcoin::hashes::Hash>::hash(data);
    <bitcoin::hashes::sha256d::Hash as bitcoin::hashes::Hash>::to_byte_array(hash).to_vec()
}

/// `secp256k1::PublicKey::from_secret_key`, on a key read with
/// `SecretKey::from_slice`: `None` where the bytes are no secret key, else
/// the 33 bytes of the compressed public key.
#[verifier::external_body]
pub(crate) fn public_key(secret: &[u8]) -> (key: Option<Vec<u8>>)
    ensures
        option_view(key) == spec_public_key(secret@),
        key matches Some(k) ==> k@.len() == PUBLIC_KEY_LEN,
        key is Some ==> secret@.len() == SECRET_KEY_LEN,
{
    let sk = bitcoin::secp256k1::SecretKey::from_slice(secret).ok()?;
    let secp = bitcoin::secp256k1::Secp256k1::new();
    Some(bitcoin::secp256k1::PublicKey::from_secret_key(&secp, &sk).serialize().to_vec())
}

/// `secp256k1::Secp256k1::sign_ecdsa`: `None` where the bytes are no secret
/// key or the digest has not 32 bytes, else the 64 bytes of the compact
/// signature, which verifies for the same digest under the public key of
/// the secret key.
#[verifier::external_body]
pub(crate) fn ecdsa_sign(secret: &[u8], digest: &[u8]) -> (signature: Option<Vec<u8>>)
    ensures
        option_view(signature) == spec_ecdsa_sign(secret@, digest@),
        signature is Some <==> (spec_public_key(secret@) is Some && digest@.len() == DIGEST_LEN),
        signature matches Some(s) ==> s@.len() == SIGNATURE_LEN,
        signature matches Some(s) ==> spec_ecdsa_verify(spec_public_key(secret@).unwrap(), digest@, s@),
{
    let sk = bitcoin::secp256k1::SecretKey::from_slice(secret).ok()?;
    let msg = bitcoin::secp256k1::Message::from_digest_slice(digest).ok()?;
    let secp = bitcoin::secp256k1::Secp256k1::new();
    Some(secp.sign_ecdsa(&msg, &sk).serialize_compact().to_vec())
}

/// `secp256k1::Secp256k1::verify_ecdsa`: `false` where the key, the digest
/// or the signature cannot be read, else whether the signature verifies.
#[verifier::external_body]
pub(crate) fn ecdsa_verify(public_key: &[u8], digest: &[u8], signature: &[u8]) -> (valid: bool)
    ensures
        valid == spec_ecdsa_verify(public_key@, digest@, signature@),
{
    let pk = match bitcoin::secp256k1::PublicKey::from_slice(public_key) { Ok(k) => k, Err(_) => return false };
    let msg = match bitcoin::secp256k1::Message::from_digest_slice(digest) { Ok(m) => m, Err(_) => return false };
    let sig = match bitcoin::secp256k1::ecdsa::Signature::from_compact(signature) { Ok(s) => s, Err(_) => return false };
    let secp = bitcoin::secp256k1::Secp256k1::new();
    secp.verify_ecdsa(&msg, &sig, &pk).is_ok()
}

} // verus!
