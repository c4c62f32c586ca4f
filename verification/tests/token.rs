use nub::auth::issuer::Issuer;
use nub::cli::token::{duration_in_range, parse_duration, preset_to_scope_string, prepare_mint, resolve_scope};
use nub::auth::scope::validate_string;

#[test]
fn parses_units() {
    assert_eq!(parse_duration("60").unwrap(), 60);
    assert_eq!(parse_duration("60s").unwrap(), 60);
    assert_eq!(parse_duration("5m").unwrap(), 300);
    assert_eq!(parse_duration("1h").unwrap(), 3600);
    assert_eq!(parse_duration("1d").unwrap(), 86400);
    assert_eq!(parse_duration("1w").unwrap(), 604800);
    assert_eq!(parse_duration("1y").unwrap(), 31_536_000);
}

#[test]
fn rejects_garbage() {
    assert!(parse_duration("").is_err());
    assert!(parse_duration("abc").is_err());
    assert!(parse_duration("1z").is_err());
    assert!(parse_duration("0d").is_err());
}

#[test]
fn duration_errors_name_the_problem() {
    assert_eq!(parse_duration("   ").unwrap_err().0, "empty duration");
    assert_eq!(parse_duration("1z").unwrap_err().0, "unknown duration unit 'z'; use s|m|h|d|w|y");
    assert_eq!(parse_duration("0d").unwrap_err().0, "duration must be positive");
    assert_eq!(parse_duration("-5m").unwrap_err().0, "duration must be positive");
    assert_eq!(
        parse_duration("abc").unwrap_err().0,
        "parsing duration \"abc\": invalid digit found in string"
    );
    assert_eq!(parse_duration(" 2D ").unwrap(), 172800);
}

#[test]
fn duration_range_check() {
    assert!(duration_in_range("90d"));
    assert!(duration_in_range("nonsense"));
    assert!(!duration_in_range("9223372036854775807y"));
}

#[test]
fn presets_expand() {
    assert_eq!(preset_to_scope_string("admin").unwrap(), "*");
    let op = preset_to_scope_string("operator").unwrap();
    assert!(validate_string(&op).is_ok());
    assert!(!op.contains("secrets:reveal"));
    assert_eq!(preset_to_scope_string("read-only").unwrap(), preset_to_scope_string("readonly").unwrap());
    assert!(preset_to_scope_string("deploy").unwrap().contains("stacks:"));
    assert_eq!(
        preset_to_scope_string("root").unwrap_err().0,
        "unknown preset `root`. Valid: admin, operator, deploy, readonly"
    );
}

#[test]
fn scope_argument_is_normalized() {
    assert_eq!(resolve_scope(Some(" containers:list,stacks:get  images:* "), None).unwrap(), "containers:list stacks:get images:*");
    assert_eq!(resolve_scope(None, None).unwrap(), "*");
    assert_eq!(resolve_scope(Some("containers:list"), Some("admin")).unwrap(), "*");
    assert_eq!(resolve_scope(Some(" , "), None).unwrap_err().0, "--scope was empty");
    assert_eq!(
        resolve_scope(Some("containers:list,bogus,nope:x"), None).unwrap_err().0,
        "unknown scope(s): bogus, nope:x. Run `nub token scopes` for the valid set."
    );
}

#[test]
fn mint_builds_claims() {
    let issuer = Issuer::generate().unwrap();
    let c = prepare_mint(&issuer, "me".into(), "box".into(), None, Some("readonly"), "1h", 1000).unwrap();
    assert_eq!(c.iss, "nub");
    assert_eq!(c.sub, "me");
    assert_eq!(c.aud, "box");
    assert_eq!((c.nbf, c.iat, c.exp), (1000, 1000, 4600));
    assert!(validate_string(&c.scope).is_ok());
    let external = Issuer::from_public_key_b64(&issuer.public_key_b64()).unwrap();
    let e = prepare_mint(&external, "me".into(), "box".into(), None, None, "1h", 0).unwrap_err();
    assert!(e.0.starts_with("nub holds only a verifying public key"));
}
