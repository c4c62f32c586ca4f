use serde_json::Value;
use nub::auth::issuer::Issuer;
use nub::auth::jwt::{check_claims, check_signature, current_unix_seconds, decode_header, encode, split_token, Claims};

fn make_issuer() -> Issuer {
    Issuer::generate().unwrap()
}

fn fresh_claims(host: &str, ttl: i64) -> Claims {
    let now = current_unix_seconds();
    Claims {
        iss: "nub".into(),
        sub: "test".into(),
        aud: host.into(),
        exp: now + ttl,
        nbf: now,
        iat: now,
        scope: "*".into(),
    }
}

fn claims_json(c: &Claims) -> Vec<u8> {
    let mut m = serde_json::Map::new();
    m.insert("iss".into(), Value::from(c.iss.clone()));
    m.insert("sub".into(), Value::from(c.sub.clone()));
    m.insert("aud".into(), Value::from(c.aud.clone()));
    m.insert("exp".into(), Value::from(c.exp));
    m.insert("nbf".into(), Value::from(c.nbf));
    m.insert("iat".into(), Value::from(c.iat));
    m.insert("scope".into(), Value::from(c.scope.clone()));
    serde_json::to_vec(&Value::Object(m)).unwrap()
}

fn encode_claims(c: &Claims, issuer: &Issuer) -> String {
    encode(&claims_json(c), issuer).map_err(|e| e.0).unwrap()
}

fn verify(token: &str, issuer: &Issuer, audience: &str) -> Result<Claims, String> {
    let decoded = decode_header(token).map_err(|e| e.0)?;
    let header: serde_json::Value = serde_json::from_slice(&decoded.header).map_err(|e| e.to_string())?;
    let alg = header.get("alg").and_then(|a| a.as_str()).ok_or("parsing header")?.to_string();
    let payload = check_signature(&decoded, &alg, issuer).map_err(|e| e.0)?;
    let v: serde_json::Value = serde_json::from_slice(&payload).map_err(|e| e.to_string())?;
    let s = |k: &str| v.get(k).and_then(|x| x.as_str()).map(String::from).ok_or("parsing payload".to_string());
    let n = |k: &str| v.get(k).and_then(|x| x.as_i64()).ok_or("parsing payload".to_string());
    let claims = Claims {
        iss: s("iss")?,
        sub: s("sub")?,
        aud: s("aud")?,
        exp: n("exp")?,
        nbf: n("nbf")?,
        iat: n("iat")?,
        scope: s("scope")?,
    };
    check_claims(&claims, current_unix_seconds(), audience).map_err(|e| e.0)?;
    Ok(claims)
}

#[test]
fn roundtrip_verifies() {
    let issuer = make_issuer();
    let claims = fresh_claims("host-a", 3600);
    let jwt = encode_claims(&claims, &issuer);
    let decoded = verify(&jwt, &issuer, "host-a").unwrap();
    assert_eq!(decoded.sub, "test");
    assert!(decoded.allows("anything"));
}

#[test]
fn audience_mismatch_rejected() {
    let issuer = make_issuer();
    let claims = fresh_claims("host-a", 3600);
    let jwt = encode_claims(&claims, &issuer);
    assert!(verify(&jwt, &issuer, "host-b").is_err());
}

#[test]
fn expired_rejected() {
    let issuer = make_issuer();
    let claims = fresh_claims("host-a", -10);
    let jwt = encode_claims(&claims, &issuer);
    assert!(verify(&jwt, &issuer, "host-a").is_err());
}

#[test]
fn tampered_signature_rejected() {
    let issuer = make_issuer();
    let claims = fresh_claims("host-a", 3600);
    let jwt = encode_claims(&claims, &issuer);
    let mut bytes = jwt.into_bytes();
    let last = bytes.last_mut().unwrap();
    *last = if *last == b'A' { b'B' } else { b'A' };
    assert!(verify(std::str::from_utf8(&bytes).unwrap(), &issuer, "host-a").is_err());
}

#[test]
fn scope_allows() {
    let mut claims = fresh_claims("host-a", 3600);
    claims.scope = "host_info list_containers".into();
    assert!(claims.allows("host_info"));
    assert!(claims.allows("list_containers"));
    assert!(!claims.allows("create_container"));

    let mut wild = fresh_claims("host-a", 3600);
    wild.scope = "*".into();
    assert!(wild.allows("anything"));
}

#[test]
fn scopes_split_the_claim() {
    let mut claims = fresh_claims("host-a", 3600);
    claims.scope = "  a:b\tc:d  ".into();
    assert_eq!(claims.scopes(), vec!["a:b", "c:d"]);
}

#[test]
fn encode_opens_to_the_same_payload() {
    let issuer = make_issuer();
    let payload = br#"{"sub":"x"}"#;
    let token = encode(payload, &issuer).map_err(|e| e.0).unwrap();
    assert_eq!(token.matches('.').count(), 2);
    let d = decode_header(&token).map_err(|e| e.0).unwrap();
    assert_eq!(d.header, br#"{"alg":"EdDSA","typ":"JWT"}"#.to_vec());
    let p = check_signature(&d, "EdDSA", &issuer).map_err(|e| e.0).unwrap();
    assert_eq!(p, payload.to_vec());
}

#[test]
fn verify_only_issuer_cannot_sign() {
    let issuer = make_issuer();
    let external = Issuer::from_public_key_b64(&issuer.public_key_b64()).map_err(|e| e.0).unwrap();
    assert!(!external.can_mint());
    let e = encode(b"{}", &external).unwrap_err();
    assert_eq!(e.0, "cannot sign: nub is configured with a trusted_issuer (verify-only)");
}

#[test]
fn external_issuer_verifies_tokens_of_its_key() {
    let issuer = make_issuer();
    let external = Issuer::from_public_key_b64(&format!("  {}\n", issuer.public_key_b64())).map_err(|e| e.0).unwrap();
    let claims = fresh_claims("host-a", 3600);
    let jwt = encode_claims(&claims, &issuer);
    assert_eq!(verify(&jwt, &external, "host-a").unwrap().sub, "test");
    let other = make_issuer();
    assert_eq!(verify(&jwt, &other, "host-a").unwrap_err(), "invalid signature");
}

#[test]
fn malformed_tokens_rejected() {
    assert_eq!(split_token("a.b").unwrap_err().0, "malformed JWT");
    assert_eq!(split_token("a.b.c.d").unwrap_err().0, "malformed JWT");
    let (h, p, s) = split_token("a.b.c").map_err(|e| e.0).unwrap();
    assert_eq!((h.as_str(), p.as_str(), s.as_str()), ("a", "b", "c"));
    let e = decode_header("!!.b.c").unwrap_err().0;
    assert!(e.starts_with("decoding header: "), "got: {e}");
}

#[test]
fn other_algorithms_refused() {
    let issuer = make_issuer();
    let token = encode(b"{}", &issuer).map_err(|e| e.0).unwrap();
    let d = decode_header(&token).map_err(|e| e.0).unwrap();
    assert_eq!(check_signature(&d, "HS256", &issuer).unwrap_err().0, "unsupported alg: HS256");
}

#[test]
fn claim_checks_in_order() {
    let c = Claims {
        iss: "nub".into(),
        sub: "s".into(),
        aud: "h".into(),
        exp: 100,
        nbf: 50,
        iat: 50,
        scope: "*".into(),
    };
    assert_eq!(check_claims(&c, 100, "h").unwrap_err().0, "token expired");
    assert_eq!(check_claims(&c, -11, "h").unwrap_err().0, "token not yet valid");
    assert!(check_claims(&c, -10, "h").is_ok());
    assert_eq!(check_claims(&c, 60, "x").unwrap_err().0, "audience mismatch (expected x, got h)");
    assert!(check_claims(&c, 99, "h").is_ok());
}

#[test]
fn public_key_b64_roundtrips() {
    let issuer = make_issuer();
    let b64 = issuer.public_key_b64();
    let back = Issuer::from_public_key_b64(&b64).map_err(|e| e.0).unwrap();
    assert_eq!(back.public_key_bytes(), issuer.public_key_bytes());
    assert_eq!(issuer.public_key_bytes().len(), 32);
}

#[test]
fn short_public_key_refused() {
    let e = Issuer::from_public_key_b64("AAAA").map_err(|e| e.0).err().unwrap();
    assert_eq!(e, "expected 32-byte ed25519 public key, got 3");
    let e = Issuer::from_public_key_b64("!!!").map_err(|e| e.0).err().unwrap();
    assert!(e.starts_with("decoding base64 public key: "), "got: {e}");
}

#[test]
fn pkcs8_garbage_rejected() {
    assert!(Issuer::from_pkcs8(vec![1, 2, 3]).is_err());
}

#[test]
fn usable_issuers() {
    let i = Issuer::generate().unwrap();
    assert!(i.is_usable());
    let rebuilt = Issuer::from_public_key_b64(&i.public_key_b64()).unwrap();
    assert!(rebuilt.is_usable());
    assert!(!Issuer::SelfManaged(vec![1, 2, 3]).is_usable());
    assert!(Issuer::External(vec![0; 32]).is_usable());
    assert!(!Issuer::External(vec![0; 31]).is_usable());
}
