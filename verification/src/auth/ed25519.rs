//! Ed25519 through `ring`. A key pair is held as its PKCS#8 v2 document;
//! each operation parses it again, so every result is a function of plain
//! bytes.

use ring::rand::SystemRandom;
use ring::signature::{Ed25519KeyPair, KeyPair as _, UnparsedPublicKey, ED25519};
use vstd::prelude::*;

verus! {

/// What `Ed25519KeyPair::from_pkcs8` makes of a document: the key pair's
/// 32-byte public key, or the text of the `KeyRejected` error.
pub uninterp spec fn ed25519_pkcs8(pkcs8: Seq<u8>) -> Result<Seq<u8>, Seq<char>>;

/// What `Ed25519KeyPair::sign` returns for the key pair of `pkcs8`.
pub uninterp spec fn ed25519_signature(pkcs8: Seq<u8>, msg: Seq<u8>) -> Seq<u8>;

/// Whether `UnparsedPublicKey::verify` with `ED25519` accepts `sig` for
/// `msg` under `public_key`.
pub uninterp spec fn ed25519_verifies(public_key: Seq<u8>, msg: Seq<u8>, sig: Seq<u8>) -> bool;

/// The public key of the key pair in a PKCS#8 document
/// (`Ed25519KeyPair::from_pkcs8`, then `public_key`). Claimed: the outcome
/// is named by `ed25519_pkcs8`, and a public key is 32 bytes long.
#[verifier::external_body]
pub(crate) fn pkcs8_public_key(pkcs8: &[u8]) -> (res: Result<Vec<u8>, String>)
    ensures
        match ed25519_pkcs8(pkcs8@) {
            Ok(pk) => res matches Ok(v) && v@ == pk && pk.len() == 32,
            Err(m) => res matches Err(e) && e@ == m,
        },
{
    match Ed25519KeyPair::from_pkcs8(pkcs8) {
        Ok(kp) => Ok(kp.public_key().as_ref().to_vec()),
        Err(e) => Err(e.to_string()),
    }
}

/// Signs `msg` with the key pair in a PKCS#8 document
/// (`Ed25519KeyPair::from_pkcs8`, then `sign`). Claimed: `None` exactly
/// when the document is rejected; the signature is named by
/// `ed25519_signature`, is 64 bytes long, and verifies under the key pair's
/// public key.
#[verifier::external_body]
pub(crate) fn pkcs8_sign(pkcs8: &[u8], msg: &[u8]) -> (res: Option<Vec<u8>>)
    ensures
        match ed25519_pkcs8(pkcs8@) {
            Ok(pk) => res matches Some(sig) && sig@ == ed25519_signature(pkcs8@, msg@) && sig@.len() == 64
                && ed25519_verifies(pk, msg@, sig@),
            Err(_) => res is None,
        },
{
    match Ed25519KeyPair::from_pkcs8(pkcs8) {
        Ok(kp) => Some(kp.sign(msg).as_ref().to_vec()),
        Err(_) => None,
    }
}

/// `UnparsedPublicKey::new(&ED25519, public_key).verify(msg, sig)`.
/// Claimed: the answer is named by `ed25519_verifies`.
#[verifier::external_body]
pub(crate) fn signature_verifies(public_key: &[u8], msg: &[u8], sig: &[u8]) -> (res: bool)
    ensures
        res == ed25519_verifies(public_key@, msg@, sig@),
{
    UnparsedPublicKey::new(&ED25519, public_key).verify(msg, sig).is_ok()
}

/// A fresh key pair as a PKCS#8 document (`Ed25519KeyPair::generate_pkcs8`
/// with the system's random source), or the error's text. Claimed: a
/// document that comes out is one `Ed25519KeyPair::from_pkcs8` accepts (it
/// wraps the seed and the public key derived from it in the v2 template
/// that `from_pkcs8` parses). Which key pair, and whether the random
/// source fails, is left unsaid: it is chance.
#[verifier::external_body]
pub(crate) fn generate_pkcs8() -> (res: Result<Vec<u8>, String>)
    ensures
        res matches Ok(doc) ==> ed25519_pkcs8(doc@) is Ok,
{
    match Ed25519KeyPair::generate_pkcs8(&SystemRandom::new()) {
        Ok(doc) => Ok(doc.as_ref().to_vec()),
        Err(e) => Err(e.to_string()),
    }
}

} // verus!
