//! The Ed25519 issuer key nub trusts.
//!
//! Two modes:
//! - **Self-managed:** nub holds its own key pair (a PKCS#8 document that
//!   the binary persists with mode 600) and can both sign and verify.
//! - **External:** the operator supplies a public key in the config
//!   (`trusted_issuer = "<base64url ed25519 pubkey>"`); nub can only
//!   verify. Tokens are minted elsewhere.

use vstd::prelude::*;
use vstd::string::StringExecFns;

use super::codec::{b64url_decode, b64url_decoded, b64url_encode, b64url_encoded, is_b64url_char};
use super::ed25519::{
    ed25519_pkcs8, ed25519_signature, ed25519_verifies, generate_pkcs8, pkcs8_public_key, pkcs8_sign,
    signature_verifies,
};
use crate::num::{decimal, format_u64};
use crate::text::{from_chars, to_chars, trim, trim_chars};

verus! {

/// An authentication failure. Holds the message.
#[derive(Debug)]
pub struct AuthError(pub String);

impl AuthError {
    /// The message.
    pub fn message(&self) -> (res: String)
        ensures
            res@ == self.0@,
    {
        self.0.clone()
    }
}

/// Verifies signatures; signs too when nub holds the private key.
pub enum Issuer {
    /// nub owns the key pair, held as its PKCS#8 document.
    SelfManaged(Vec<u8>),
    /// nub only has the raw 32-byte public key.
    External(Vec<u8>),
}

/// The message of a signing attempt with a verify-only issuer.
pub open spec fn cannot_sign_message() -> Seq<char> {
    "cannot sign: nub is configured with a trusted_issuer (verify-only)"@
}

/// `text` without surrounding whitespace, decoded from base64url.
pub open spec fn spec_from_public_key_b64(text: Seq<char>) -> Result<Seq<u8>, Seq<char>> {
    match b64url_decoded(trim(text)) {
        Err(m) => Err("decoding base64 public key: "@ + m),
        Ok(raw) => if raw.len() == 32 {
            Ok(raw)
        } else {
            Err("expected 32-byte ed25519 public key, got "@ + decimal(raw.len()))
        },
    }
}

/// Text in the base64url alphabet has no surrounding whitespace.
proof fn lemma_b64_is_trimmed(s: Seq<char>)
    requires
        forall|i: int| 0 <= i < s.len() ==> is_b64url_char(#[trigger] s[i]),
    ensures
        trim(s) == s,
{
    if s.len() > 0 {
        assert(is_b64url_char(s[0]));
        assert(is_b64url_char(s[s.len() - 1]));
        assert(s.last() == s[s.len() - 1]);
    }
    crate::text::lemma_trim_without_ws(s);
}

impl Issuer {
    /// The key material is usable: a PKCS#8 document that parses, or a
    /// 32-byte public key.
    pub open spec fn wf(self) -> bool {
        match self {
            Issuer::SelfManaged(p) => ed25519_pkcs8(p@) is Ok,
            Issuer::External(pk) => pk@.len() == 32,
        }
    }

    /// The public key signatures are checked against.
    pub open spec fn public_key(self) -> Seq<u8> {
        match self {
            Issuer::SelfManaged(p) => match ed25519_pkcs8(p@) {
                Ok(pk) => pk,
                Err(_) => seq![],
            },
            Issuer::External(pk) => pk@,
        }
    }

    /// Whether the key material is usable: the check that `wf` states, for
    /// callers that hold an issuer from elsewhere.
    pub fn is_usable(&self) -> (b: bool)
        ensures
            b == self.wf(),
    {
        match self {
            Issuer::SelfManaged(p) => pkcs8_public_key(p.as_slice()).is_ok(),
            Issuer::External(pk) => pk.len() == 32,
        }
    }

    /// A self-managed issuer from a PKCS#8 document; the error is the
    /// rejection's text.
    pub fn from_pkcs8(pkcs8: Vec<u8>) -> (res: Result<Issuer, AuthError>)
        ensures
            match ed25519_pkcs8(pkcs8@) {
                Ok(_) => res matches Ok(i) && i == Issuer::SelfManaged(pkcs8) && i.wf(),
                Err(m) => res matches Err(e) && e.0@ == m,
            },
    {
        match pkcs8_public_key(pkcs8.as_slice()) {
            Ok(_) => Ok(Issuer::SelfManaged(pkcs8)),
            Err(e) => Err(AuthError(e)),
        }
    }

    /// A self-managed issuer with a freshly generated key pair. It fails
    /// only when the random source does, with `generating ed25519 key: `
    /// and the source's error.
    pub fn generate() -> (res: Result<Issuer, AuthError>)
        ensures
            res matches Ok(i) ==> i.wf() && i is SelfManaged,
            res matches Err(e) ==> exists|t: Seq<char>| e.0@ == "generating ed25519 key: "@ + t,
    {
        match generate_pkcs8() {
            Ok(doc) => match Issuer::from_pkcs8(doc) {
                Ok(i) => Ok(i),
                Err(e) => {
                    let mut m = String::from_str("parsing freshly-generated key: ");
                    m.append(e.0.as_str());
                    Err(AuthError(m))
                },
            },
            Err(e) => {
                let mut m = String::from_str("generating ed25519 key: ");
                m.append(e.as_str());
                Err(AuthError(m))
            },
        }
    }

    /// A verify-only issuer from a base64url-encoded raw public key;
    /// surrounding whitespace is ignored.
    pub fn from_public_key_b64(b64: &str) -> (res: Result<Issuer, AuthError>)
        ensures
            match spec_from_public_key_b64(b64@) {
                Ok(raw) => res matches Ok(i) && i matches Issuer::External(pk) && pk@ == raw && i.wf(),
                Err(m) => res matches Err(e) && e.0@ == m,
            },
    {
        let trimmed = from_chars(trim_chars(to_chars(b64).as_slice()).as_slice());
        match b64url_decode(trimmed.as_str()) {
            Err(e) => {
                let mut m = String::from_str("decoding base64 public key: ");
                m.append(e.as_str());
                Err(AuthError(m))
            },
            Ok(raw) => {
                if raw.len() == 32 {
                    Ok(Issuer::External(raw))
                } else {
                    let mut m = String::from_str("expected 32-byte ed25519 public key, got ");
                    let n = format_u64(raw.len() as u64);
                    m.append(n.as_str());
                    Err(AuthError(m))
                }
            },
        }
    }

    /// The raw public key.
    pub fn public_key_bytes(&self) -> (res: Vec<u8>)
        requires
            self.wf(),
        ensures
            res@ == self.public_key(),
            res@.len() == 32,
    {
        match self {
            Issuer::SelfManaged(p) => match pkcs8_public_key(p.as_slice()) {
                Ok(pk) => pk,
                Err(_) => Vec::new(),
            },
            Issuer::External(pk) => pk.clone(),
        }
    }

    /// The public key as base64url, for sharing or pasting into config.
    pub fn public_key_b64(&self) -> (res: String)
        requires
            self.wf(),
        ensures
            res@ == b64url_encoded(self.public_key()),
            spec_from_public_key_b64(res@) == Ok::<Seq<u8>, Seq<char>>(self.public_key()),
    {
        let pk = self.public_key_bytes();
        let res = b64url_encode(pk.as_slice());
        proof {
            lemma_b64_is_trimmed(res@);
        }
        res
    }

    /// Signs `msg`; a verify-only issuer cannot.
    pub fn sign(&self, msg: &[u8]) -> (res: Result<Vec<u8>, AuthError>)
        requires
            self.wf(),
        ensures
            match self {
                Issuer::SelfManaged(p) => res matches Ok(sig) && sig@ == ed25519_signature(p@, msg@)
                    && sig@.len() == 64 && ed25519_verifies(self.public_key(), msg@, sig@),
                Issuer::External(_) => res matches Err(e) && e.0@ == cannot_sign_message(),
            },
    {
        match self {
            Issuer::SelfManaged(p) => match pkcs8_sign(p.as_slice(), msg) {
                Some(sig) => Ok(sig),
                None => Err(AuthError(String::from_str("invalid key"))),
            },
            Issuer::External(_) => Err(
                AuthError(String::from_str("cannot sign: nub is configured with a trusted_issuer (verify-only)")),
            ),
        }
    }

    /// Checks `sig` over `msg` against the public key.
    pub fn verify(&self, msg: &[u8], sig: &[u8]) -> (res: Result<(), AuthError>)
        requires
            self.wf(),
        ensures
            match res {
                Ok(()) => ed25519_verifies(self.public_key(), msg@, sig@),
                Err(e) => !ed25519_verifies(self.public_key(), msg@, sig@) && e.0@ == "invalid signature"@,
            },
    {
        let pk = self.public_key_bytes();
        if signature_verifies(pk.as_slice(), msg, sig) {
            Ok(())
        } else {
            Err(AuthError(String::from_str("invalid signature")))
        }
    }

    /// True if nub can mint tokens (it holds the private key).
    pub fn can_mint(&self) -> (res: bool)
        ensures
            res == (self is SelfManaged),
    {
        match self {
            Issuer::SelfManaged(_) => true,
            Issuer::External(_) => false,
        }
    }
}

} // verus!
