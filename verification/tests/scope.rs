use std::collections::HashSet;

use nub::auth::scope::presets;
use nub::auth::scope::{granted_allows, join_scopes, validate_string, validate_token, Scope, RESOURCES};

#[test]
fn tests_every_scope_has_unique_string() {
    let mut seen = HashSet::new();
    for &s in Scope::ALL.iter() {
        assert!(seen.insert(s.as_str()), "duplicate scope string: {}", s.as_str());
    }
}

#[test]
fn tests_every_scope_is_resource_colon_action() {
    for &s in Scope::ALL.iter() {
        let str_form = s.as_str();
        assert!(str_form.contains(':'), "scope `{str_form}` missing `:`");
        assert!(
            !str_form.starts_with(':') && !str_form.ends_with(':'),
            "scope `{str_form}` has empty resource or action"
        );
        let r = s.resource();
        assert!(str_form.starts_with(r));
        assert_eq!(str_form.as_bytes()[r.len()], b':');
    }
}

#[test]
fn tests_resources_match_scopes() {
    let mut scope_resources: Vec<&str> = Scope::ALL.iter().map(|s| s.resource()).collect();
    scope_resources.sort();
    scope_resources.dedup();
    let mut listed = RESOURCES.to_vec();
    listed.sort();
    assert_eq!(scope_resources, listed);
}

#[test]
fn tests_from_str_roundtrip() {
    for &s in Scope::ALL.iter() {
        let parsed: Scope = s.as_str().parse().unwrap();
        assert_eq!(parsed, s);
    }
}

#[test]
fn tests_from_str_rejects_unknown() {
    assert!("nonsense".parse::<Scope>().is_err());
    assert!("containers:nope".parse::<Scope>().is_err());
    assert!("".parse::<Scope>().is_err());
}

#[test]
fn tests_validate_token_accepts_wildcards() {
    assert!(validate_token("*").is_ok());
    assert!(validate_token("containers:*").is_ok());
    assert!(validate_token("secrets:*").is_ok());
}

#[test]
fn tests_validate_token_rejects_unknown_resource_wildcard() {
    assert!(validate_token("widgets:*").is_err());
}

#[test]
fn tests_validate_token_rejects_garbage() {
    assert!(validate_token("").is_err());
    assert!(validate_token(":").is_err());
    assert!(validate_token("containers:").is_err());
    assert!(validate_token(":get").is_err());
    assert!(validate_token("containers:list:extra").is_err());
}

#[test]
fn tests_validate_string_collects_bad_tokens() {
    let r = validate_string("containers:list bogus stacks:get also_bogus");
    assert_eq!(r.unwrap_err(), vec!["bogus", "also_bogus"]);
}

#[test]
fn tests_granted_allows_exact() {
    assert!(granted_allows("containers:list", Scope::ContainersList));
    assert!(!granted_allows("containers:list", Scope::ContainersGet));
}

#[test]
fn tests_granted_allows_admin_wildcard() {
    for &s in Scope::ALL.iter() {
        assert!(granted_allows("*", s));
    }
}

#[test]
fn tests_granted_allows_resource_wildcard() {
    assert!(granted_allows("containers:*", Scope::ContainersExec));
    assert!(granted_allows("secrets:*", Scope::SecretsReveal));
    assert!(!granted_allows("containers:*", Scope::ImagesList));
}

#[test]
fn tests_granted_allows_multi_token() {
    let granted = "containers:list stacks:get secrets:put";
    assert!(granted_allows(granted, Scope::ContainersList));
    assert!(granted_allows(granted, Scope::StacksGet));
    assert!(granted_allows(granted, Scope::SecretsPut));
    assert!(!granted_allows(granted, Scope::SecretsReveal));
}

#[test]
fn tests_presets_dont_grant_secrets_reveal() {
    assert!(!presets::OPERATOR.contains(&Scope::SecretsReveal));
    assert!(!presets::DEPLOY.contains(&Scope::SecretsReveal));
    assert!(!presets::READONLY.contains(&Scope::SecretsReveal));
}

#[test]
fn tests_join_scopes_format() {
    let s = join_scopes(&[Scope::ContainersList, Scope::StacksGet]);
    assert_eq!(s, "containers:list stacks:get");
    assert_eq!(join_scopes(&[]), "");
}

#[test]
fn types_every_scope_has_unique_string() {
    let mut seen = HashSet::new();
    for &s in Scope::ALL.iter() {
        assert!(seen.insert(s.as_str()), "duplicate scope string: {}", s.as_str());
    }
}

#[test]
fn types_every_scope_is_resource_colon_action() {
    for &s in Scope::ALL.iter() {
        let str_form = s.as_str();
        assert!(str_form.contains(':'), "scope `{str_form}` missing `:`");
        assert!(
            !str_form.starts_with(':') && !str_form.ends_with(':'),
            "scope `{str_form}` has empty resource or action"
        );
        let r = s.resource();
        assert!(str_form.starts_with(r));
        assert_eq!(str_form.as_bytes()[r.len()], b':');
    }
}

#[test]
fn types_from_str_roundtrip() {
    for &s in Scope::ALL.iter() {
        let parsed: Scope = s.as_str().parse().unwrap();
        assert_eq!(parsed, s);
    }
}

#[test]
fn types_from_str_rejects_unknown() {
    assert!("nonsense".parse::<Scope>().is_err());
    assert!("containers:nope".parse::<Scope>().is_err());
    assert!("".parse::<Scope>().is_err());
}

#[test]
fn validate_resources_match_scopes() {
    let mut scope_resources: Vec<&str> = Scope::ALL.iter().map(|s| s.resource()).collect();
    scope_resources.sort();
    scope_resources.dedup();
    let mut listed = RESOURCES.to_vec();
    listed.sort();
    assert_eq!(scope_resources, listed);
}

#[test]
fn validate_validate_token_accepts_wildcards() {
    assert!(validate_token("*").is_ok());
    assert!(validate_token("containers:*").is_ok());
    assert!(validate_token("secrets:*").is_ok());
}

#[test]
fn validate_validate_token_rejects_unknown_resource_wildcard() {
    assert!(validate_token("widgets:*").is_err());
}

#[test]
fn validate_validate_token_rejects_garbage() {
    assert!(validate_token("").is_err());
    assert!(validate_token(":").is_err());
    assert!(validate_token("containers:").is_err());
    assert!(validate_token(":get").is_err());
    assert!(validate_token("containers:list:extra").is_err());
}

#[test]
fn validate_validate_string_collects_bad_tokens() {
    let r = validate_string("containers:list bogus stacks:get also_bogus");
    assert_eq!(r.unwrap_err(), vec!["bogus", "also_bogus"]);
}

#[test]
fn validate_granted_allows_exact() {
    assert!(granted_allows("containers:list", Scope::ContainersList));
    assert!(!granted_allows("containers:list", Scope::ContainersGet));
}

#[test]
fn validate_granted_allows_admin_wildcard() {
    for &s in Scope::ALL.iter() {
        assert!(granted_allows("*", s));
    }
}

#[test]
fn validate_granted_allows_resource_wildcard() {
    assert!(granted_allows("containers:*", Scope::ContainersExec));
    assert!(granted_allows("secrets:*", Scope::SecretsReveal));
    assert!(!granted_allows("containers:*", Scope::ImagesList));
}

#[test]
fn validate_granted_allows_multi_token() {
    let granted = "containers:list stacks:get secrets:put";
    assert!(granted_allows(granted, Scope::ContainersList));
    assert!(granted_allows(granted, Scope::StacksGet));
    assert!(granted_allows(granted, Scope::SecretsPut));
    assert!(!granted_allows(granted, Scope::SecretsReveal));
}

#[test]
fn validate_presets_dont_grant_secrets_reveal() {
    assert!(!presets::OPERATOR.contains(&Scope::SecretsReveal));
    assert!(!presets::DEPLOY.contains(&Scope::SecretsReveal));
    assert!(!presets::READONLY.contains(&Scope::SecretsReveal));
}

#[test]
fn validate_join_scopes_format() {
    let s = join_scopes(&[Scope::ContainersList, Scope::StacksGet]);
    assert_eq!(s, "containers:list stacks:get");
    assert_eq!(join_scopes(&[]), "");
}

#[test]
fn scope_all_lists_every_scope_once() {
    let all = Scope::all();
    assert_eq!(all.len(), 42);
    assert_eq!(all, Scope::ALL.to_vec());
}

#[test]
fn scope_parse_error_names_the_input() {
    let e = validate_token("widgets:*").unwrap_err();
    assert_eq!(e.0, "widgets:*");
    assert_eq!(e.message(), "unknown scope `widgets:*`");
}

#[test]
fn join_scopes_output_validates() {
    let s = join_scopes(&presets::OPERATOR);
    assert!(validate_string(&s).is_ok());
    for &sc in presets::OPERATOR.iter() {
        assert!(granted_allows(&s, sc));
    }
}

#[test]
fn validate_string_accepts_commas_and_spaces() {
    assert_eq!(validate_string("containers:list,stacks:get"), Ok(()));
    assert_eq!(validate_string(" ,containers:list,, stacks:* ,"), Ok(()));
    assert_eq!(validate_string("containers:list,bogus nope,stacks:get").unwrap_err(), vec!["bogus", "nope"]);
    assert_eq!(validate_string(""), Ok(()));
}
