//! Compact JWT (JWS) tailored to nub: Ed25519 signatures (`alg=EdDSA`),
//! the registered claims plus an OAuth-style `scope` claim, and
//! validation of `exp`, `nbf` and `aud`.
//!
//! The JSON of the header and of the claims is read and written by the
//! caller; this module frames, signs and checks the segments.

use vstd::prelude::*;
use vstd::string::{StringExecFns, StringSliceAdditionalSpecFns};
use vstd::utf8::encode_utf8;

use super::codec::{b64url_decode, b64url_decoded, b64url_encode, b64url_encoded, decodes_to, is_b64url_char};
use super::ed25519::{ed25519_signature, ed25519_verifies};
use super::issuer::{cannot_sign_message, spec_from_public_key_b64, AuthError, Issuer};
use crate::compose::wire::strs;
use crate::num::{format_i64, signed_decimal};
use crate::text::{
    chars_eq, from_chars, lemma_split_char_concat, lemma_split_char_none, split_ascii_ws, split_char, split_chars,
    to_chars, ws_tokens,
};

verus! {

/// JWT claims. Field order mirrors the registered claims of RFC 7519
/// followed by OAuth's `scope` (RFC 6749 section 3.3).
#[derive(Debug, Clone)]
pub struct Claims {
    pub iss: String,
    pub sub: String,
    pub aud: String,
    pub exp: i64,
    pub nbf: i64,
    pub iat: i64,
    /// Space-separated op names. `*` means all ops.
    pub scope: String,
}

/// `op` is granted by a space-separated scope claim: some entry is `*` or
/// `op` itself.
pub open spec fn scope_allows(scope: Seq<char>, op: Seq<char>) -> bool {
    exists|i: int| 0 <= i < ws_tokens(scope).len() && (#[trigger] ws_tokens(scope)[i] == "*"@ || ws_tokens(scope)[i] == op)
}

impl Claims {
    /// True if the token authorizes invoking `op_name`.
    pub fn allows(&self, op_name: &str) -> (res: bool)
        ensures
            res == scope_allows(self.scope@, op_name@),
    {
        let toks = split_ascii_ws(to_chars(self.scope.as_str()).as_slice());
        let star = to_chars("*");
        let op = to_chars(op_name);
        let mut i: usize = 0;
        while i < toks.len()
            invariant
                i <= toks@.len(),
                crate::text::views(toks@) == ws_tokens(self.scope@),
                star@ == "*"@,
                op@ == op_name@,
                forall|k: int| 0 <= k < i ==> !(toks@[k]@ == "*"@ || toks@[k]@ == op_name@),
            decreases toks@.len() - i,
        {
            assert(crate::text::views(toks@)[i as int] == toks@[i as int]@);
            if chars_eq(toks[i].as_slice(), star.as_slice()) || chars_eq(toks[i].as_slice(), op.as_slice()) {
                return true;
            }
            i = i + 1;
        }
        proof {
            if scope_allows(self.scope@, op_name@) {
                let k = choose|k: int|
                    0 <= k < ws_tokens(self.scope@).len() && (#[trigger] ws_tokens(self.scope@)[k] == "*"@
                        || ws_tokens(self.scope@)[k] == op_name@);
                assert(crate::text::views(toks@)[k] == toks@[k]@);
            }
        }
        false
    }

    /// The scope claim split into individual op names.
    pub fn scopes(&self) -> (res: Vec<String>)
        ensures
            strs(res@) == ws_tokens(self.scope@),
    {
        let toks = split_ascii_ws(to_chars(self.scope.as_str()).as_slice());
        crate::compose::wire::to_strings(&toks)
    }
}

/// The header every token carries: `{"alg":"EdDSA","typ":"JWT"}`.
pub open spec fn jwt_header() -> Seq<u8> {
    seq![
        123u8, 34, 97, 108, 103, 34, 58, 34, 69, 100, 68, 83, 65, 34, 44, 34, 116, 121, 112, 34, 58, 34, 74, 87, 84,
        34, 125,
    ]
}

/// The header's bytes.
fn header_bytes() -> (res: Vec<u8>)
    ensures
        res@ == jwt_header(),
{
    let v: Vec<u8> = vec![
        123u8, 34, 97, 108, 103, 34, 58, 34, 69, 100, 68, 83, 65, 34, 44, 34, 116, 121, 112, 34, 58, 34, 74, 87, 84,
        34, 125,
    ];
    assert(v@ =~= jwt_header());
    v
}

/// `header.payload`, the text a signature covers.
pub open spec fn signing_input(h64: Seq<char>, p64: Seq<char>) -> Seq<char> {
    h64 + seq!['.'] + p64
}

/// The token the key pair of `pkcs8` mints for the claims JSON `payload`.
pub open spec fn token_for(pkcs8: Seq<u8>, payload: Seq<u8>) -> Seq<char> {
    let input = signing_input(b64url_encoded(jwt_header()), b64url_encoded(payload));
    input + seq!['.'] + b64url_encoded(ed25519_signature(pkcs8, encode_utf8(input)))
}

/// A token's three segments, or the error when it has another number of
/// `.`-separated pieces.
pub open spec fn spec_split_token(t: Seq<char>) -> Result<(Seq<char>, Seq<char>, Seq<char>), Seq<char>> {
    let parts = split_char(t, '.');
    if parts.len() == 3 {
        Ok((parts[0], parts[1], parts[2]))
    } else {
        Err("malformed JWT"@)
    }
}

/// The segments with the header decoded: (header JSON, header, payload,
/// signature).
pub open spec fn spec_decode_header(t: Seq<char>) -> Result<
    (Seq<u8>, Seq<char>, Seq<char>, Seq<char>),
    Seq<char>,
> {
    match spec_split_token(t) {
        Err(m) => Err(m),
        Ok((h64, p64, s64)) => match b64url_decoded(h64) {
            Err(m) => Err("decoding header: "@ + m),
            Ok(h) => Ok((h, h64, p64, s64)),
        },
    }
}

/// Checks the algorithm and the signature, then decodes the payload. The
/// result is the claims JSON.
pub open spec fn spec_check_signature(
    h64: Seq<char>,
    p64: Seq<char>,
    s64: Seq<char>,
    alg: Seq<char>,
    public_key: Seq<u8>,
) -> Result<Seq<u8>, Seq<char>> {
    if alg != "EdDSA"@ {
        Err("unsupported alg: "@ + alg)
    } else {
        match b64url_decoded(s64) {
            Err(m) => Err("decoding signature: "@ + m),
            Ok(sig) => if !ed25519_verifies(public_key, encode_utf8(signing_input(h64, p64)), sig) {
                Err("invalid signature"@)
            } else {
                match b64url_decoded(p64) {
                    Err(m) => Err("decoding payload: "@ + m),
                    Ok(p) => Ok(p),
                }
            },
        }
    }
}

/// A token opens, under `public_key`, to the header nub writes and to the
/// claims JSON `payload`.
pub open spec fn token_opens(t: Seq<char>, public_key: Seq<u8>, payload: Seq<u8>) -> bool {
    spec_decode_header(t) matches Ok((h, h64, p64, s64)) && h == jwt_header() && spec_check_signature(
        h64,
        p64,
        s64,
        "EdDSA"@,
        public_key,
    ) == Ok::<Seq<u8>, Seq<char>>(payload)
}

/// The checks on the decoded claims: expiry, not-before (with 60 seconds
/// of leeway for clock skew) and audience, in that order.
pub open spec fn spec_check_claims(exp: i64, nbf: i64, aud: Seq<char>, now: i64, audience: Seq<char>) -> Result<
    (),
    Seq<char>,
> {
    if exp <= now {
        Err("token expired"@)
    } else if nbf > now + 60 {
        Err("token not yet valid"@)
    } else if aud != audience {
        Err("audience mismatch (expected "@ + audience + ", got "@ + aud + ")"@)
    } else {
        Ok(())
    }
}

/// A token split into its segments, with the header decoded.
#[derive(Debug)]
pub struct DecodedToken {
    /// The header JSON.
    pub header: Vec<u8>,
    pub header_b64: String,
    pub payload_b64: String,
    pub signature_b64: String,
}

/// Signs the claims JSON `payload` into a token.
pub fn encode(payload: &[u8], signer: &Issuer) -> (res: Result<String, AuthError>)
    requires
        signer.wf(),
        payload@.len() <= usize::MAX / 2,
    ensures
        match signer {
            Issuer::SelfManaged(p) => res matches Ok(t) && t@ == token_for(p@, payload@) && token_opens(
                t@,
                signer.public_key(),
                payload@,
            ),
            Issuer::External(_) => res matches Err(e) && e.0@ == cannot_sign_message(),
        },
{
    let header = header_bytes();
    let h64 = b64url_encode(header.as_slice());
    let p64 = b64url_encode(payload);
    let mut input = h64.clone();
    input.append(".");
    input.append(p64.as_str());
    proof {
        reveal_strlit(".");
    }
    let input_bytes = input.as_str().as_bytes();
    let sig = signer.sign(input_bytes)?;
    let s64 = b64url_encode(sig.as_slice());
    let mut token = input.clone();
    token.append(".");
    token.append(s64.as_str());
    proof {
        assert(input@ == signing_input(h64@, p64@));
        assert(token@ == input@ + seq!['.'] + s64@);
        lemma_b64_no_dot(h64@);
        lemma_b64_no_dot(p64@);
        lemma_b64_no_dot(s64@);
        lemma_split_char_none(h64@, '.');
        lemma_split_char_none(p64@, '.');
        lemma_split_char_none(s64@, '.');
        lemma_split_char_concat(h64@, p64@, '.');
        lemma_split_char_concat(input@, s64@, '.');
        assert(split_char(token@, '.') =~= seq![h64@, p64@, s64@]);
    }
    Ok(token)
}

/// Text in the base64url alphabet holds no `.`.
proof fn lemma_b64_no_dot(s: Seq<char>)
    requires
        forall|i: int| 0 <= i < s.len() ==> is_b64url_char(#[trigger] s[i]),
    ensures
        !s.contains('.'),
{
    if s.contains('.') {
        let k = choose|k: int| 0 <= k < s.len() && s[k] == '.';
        assert(is_b64url_char(s[k]));
    }
}

/// Builds `<prefix><tail>`.
fn message(prefix: &str, tail: &str) -> (res: AuthError)
    ensures
        res.0@ == prefix@ + tail@,
{
    let mut m = String::from_str(prefix);
    m.append(tail);
    AuthError(m)
}

/// Splits a token into its three segments.
pub fn split_token(token: &str) -> (res: Result<(String, String, String), AuthError>)
    ensures
        match spec_split_token(token@) {
            Ok((h, p, s)) => res matches Ok(t) && t.0@ == h && t.1@ == p && t.2@ == s,
            Err(m) => res matches Err(e) && e.0@ == m,
        },
{
    let parts = split_chars(to_chars(token).as_slice(), '.');
    if parts.len() != 3 {
        return Err(AuthError(String::from_str("malformed JWT")));
    }
    assert(parts@[0]@ == split_char(token@, '.')[0]);
    assert(parts@[1]@ == split_char(token@, '.')[1]);
    assert(parts@[2]@ == split_char(token@, '.')[2]);
    Ok((from_chars(parts[0].as_slice()), from_chars(parts[1].as_slice()), from_chars(parts[2].as_slice())))
}

/// Splits a token and decodes its header; the header JSON is for the
/// caller to read.
pub fn decode_header(token: &str) -> (res: Result<DecodedToken, AuthError>)
    ensures
        match spec_decode_header(token@) {
            Ok((h, h64, p64, s64)) => res matches Ok(d) && d.header@ == h && d.header_b64@ == h64
                && d.payload_b64@ == p64 && d.signature_b64@ == s64,
            Err(m) => res matches Err(e) && e.0@ == m,
        },
{
    let (h64, p64, s64) = split_token(token)?;
    match b64url_decode(h64.as_str()) {
        Err(e) => Err(message("decoding header: ", e.as_str())),
        Ok(header) => Ok(DecodedToken { header, header_b64: h64, payload_b64: p64, signature_b64: s64 }),
    }
}

/// Refuses any algorithm but `EdDSA` (which dodges algorithm confusion),
/// checks the signature, and decodes the payload into the claims JSON.
pub fn check_signature(token: &DecodedToken, alg: &str, verifier: &Issuer) -> (res: Result<Vec<u8>, AuthError>)
    requires
        verifier.wf(),
    ensures
        match spec_check_signature(
            token.header_b64@,
            token.payload_b64@,
            token.signature_b64@,
            alg@,
            verifier.public_key(),
        ) {
            Ok(p) => res matches Ok(v) && v@ == p,
            Err(m) => res matches Err(e) && e.0@ == m,
        },
{
    proof {
        reveal_strlit("EdDSA");
        reveal_strlit(".");
    }
    if !crate::text::str_eq(alg, "EdDSA") {
        return Err(message("unsupported alg: ", alg));
    }
    let sig = match b64url_decode(token.signature_b64.as_str()) {
        Err(e) => {
            return Err(message("decoding signature: ", e.as_str()));
        },
        Ok(s) => s,
    };
    let mut input = token.header_b64.clone();
    input.append(".");
    input.append(token.payload_b64.as_str());
    assert(input@ == signing_input(token.header_b64@, token.payload_b64@));
    match verifier.verify(input.as_str().as_bytes(), sig.as_slice()) {
        Err(e) => {
            return Err(e);
        },
        Ok(()) => {},
    }
    match b64url_decode(token.payload_b64.as_str()) {
        Err(e) => Err(message("decoding payload: ", e.as_str())),
        Ok(p) => Ok(p),
    }
}

/// Checks expiry, not-before and audience against the time `now` (Unix
/// seconds).
pub fn check_claims(claims: &Claims, now: i64, audience: &str) -> (res: Result<(), AuthError>)
    requires
        now <= i64::MAX - 60,
    ensures
        match spec_check_claims(claims.exp, claims.nbf, claims.aud@, now, audience@) {
            Ok(()) => res is Ok,
            Err(m) => res matches Err(e) && e.0@ == m,
        },
{
    if claims.exp <= now {
        return Err(AuthError(String::from_str("token expired")));
    }
    if claims.nbf > now + 60 {
        return Err(AuthError(String::from_str("token not yet valid")));
    }
    if !crate::text::str_eq(claims.aud.as_str(), audience) {
        let mut m = String::from_str("audience mismatch (expected ");
        m.append(audience);
        m.append(", got ");
        m.append(claims.aud.as_str());
        m.append(")");
        return Err(AuthError(m));
    }
    Ok(())
}

/// Minting then verifying gives the claims back. Take a token that
/// `encode` returned for the claims JSON `payload` under a self-managed
/// `signer` (what its `ensures` states of that token), the text
/// `public_key_b64` returned for `signer`, and the verify-only issuer
/// `from_public_key_b64` built from that text (what their `ensures`
/// state). The token passes the header, algorithm and signature checks
/// and yields `payload`, under `signer` and under the rebuilt issuer
/// alike; and claims that have not expired, are already valid and name
/// the audience pass the claims checks.
pub proof fn law_minted_token_verifies(
    signer: Issuer,
    payload: Seq<u8>,
    token: Seq<char>,
    key_b64: Seq<char>,
    rebuilt: Issuer,
    exp: i64,
    nbf: i64,
    aud: Seq<char>,
    now: i64,
)
    requires
        signer.wf(),
        signer matches Issuer::SelfManaged(p) && token == token_for(p@, payload),
        token_opens(token, signer.public_key(), payload),
        key_b64 == b64url_encoded(signer.public_key()),
        spec_from_public_key_b64(key_b64) == Ok::<Seq<u8>, Seq<char>>(signer.public_key()),
        spec_from_public_key_b64(key_b64) matches Ok(raw) && rebuilt matches Issuer::External(pk) && pk@ == raw,
        now < exp,
        nbf <= now + 60,
    ensures
        spec_decode_header(token) matches Ok((h, h64, p64, s64)) && h == jwt_header() && spec_check_signature(
            h64,
            p64,
            s64,
            "EdDSA"@,
            signer.public_key(),
        ) == Ok::<Seq<u8>, Seq<char>>(payload) && spec_check_signature(h64, p64, s64, "EdDSA"@, rebuilt.public_key())
            == Ok::<Seq<u8>, Seq<char>>(payload),
        rebuilt.wf(),
        rebuilt.public_key() == signer.public_key(),
        spec_check_claims(exp, nbf, aud, now, aud) == Ok::<(), Seq<char>>(()),
{
}

/// The current time in Unix seconds (`0` if the clock reads before the
/// epoch). Nothing is claimed of it: it is the clock's reading.
#[verifier::external_body]
pub fn current_unix_seconds() -> (res: i64) {
    std::time::SystemTime::now().duration_since(std::time::UNIX_EPOCH).map(|d| d.as_secs() as i64).unwrap_or(0)
}

} // verus!
