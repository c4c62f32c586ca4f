//! URL-safe, unpadded base64: the encoding of every JWT segment and of
//! shared public keys.

use base64::engine::general_purpose::URL_SAFE_NO_PAD;
use base64::Engine as _;
use vstd::prelude::*;

verus! {

/// A character of the URL-safe base64 alphabet (RFC 4648 section 5).
pub open spec fn is_b64url_char(c: char) -> bool {
    ('A' <= c <= 'Z') || ('a' <= c <= 'z') || ('0' <= c <= '9') || c == '-' || c == '_'
}

/// What `URL_SAFE_NO_PAD.encode` returns for the given bytes.
pub uninterp spec fn b64url_encoded(bytes: Seq<u8>) -> Seq<char>;

/// What `URL_SAFE_NO_PAD.decode` returns for the given text: the bytes, or
/// the text of the `DecodeError`.
pub uninterp spec fn b64url_decoded(text: Seq<char>) -> Result<Seq<u8>, Seq<char>>;

/// `text` decodes to exactly `bytes`.
pub open spec fn decodes_to(text: Seq<char>, bytes: Seq<u8>) -> bool {
    b64url_decoded(text) matches Ok(b) && b == bytes
}

/// `base64`'s `URL_SAFE_NO_PAD.encode`. Claimed: the result is named by
/// `b64url_encoded`, uses only the URL-safe alphabet (so never `.`), and
/// decodes back to the input.
#[verifier::external_body]
pub(crate) fn b64url_encode(bytes: &[u8]) -> (res: String)
    requires
        bytes@.len() <= usize::MAX / 2,
    ensures
        res@ == b64url_encoded(bytes@),
        forall|i: int| 0 <= i < res@.len() ==> is_b64url_char(#[trigger] res@[i]),
        decodes_to(res@, bytes@),
{
    URL_SAFE_NO_PAD.encode(bytes)
}

/// `base64`'s `URL_SAFE_NO_PAD.decode`, with the error as its display text.
/// Claimed: the result is named by `b64url_decoded`.
#[verifier::external_body]
pub(crate) fn b64url_decode(text: &str) -> (res: Result<Vec<u8>, String>)
    ensures
        match b64url_decoded(text@) {
            Ok(b) => res matches Ok(v) && v@ == b,
            Err(m) => res matches Err(e) && e@ == m,
        },
{
    URL_SAFE_NO_PAD.decode(text).map_err(|e| e.to_string())
}

} // verus!
