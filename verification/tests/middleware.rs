use nub::auth::jwt::Claims;
use nub::auth::middleware::{bearer_from_header, ct_eq, introspect, ws_bearer_subprotocol, Op, OpResult};

fn claims(scope: &str) -> Claims {
    Claims {
        iss: "nub".into(),
        sub: "me".into(),
        aud: "box".into(),
        exp: 10,
        nbf: 0,
        iat: 0,
        scope: scope.into(),
    }
}

#[test]
fn whoami_is_answered_by_the_auth_layer() {
    let c = claims("containers:list  stacks:get");
    match introspect(&c, &Op::Whoami) {
        Some(OpResult::Whoami(info)) => {
            assert_eq!(info.id, "me");
            assert_eq!(info.allowed, vec!["containers:list", "stacks:get"]);
        }
        None => panic!("whoami not answered"),
    }
    assert!(introspect(&c, &Op::Other("list_containers".into())).is_none());
}

#[test]
fn constant_time_equality() {
    assert!(ct_eq(b"secret", b"secret"));
    assert!(!ct_eq(b"secret", b"secreT"));
    assert!(!ct_eq(b"secret", b"secrets"));
    assert!(ct_eq(b"", b""));
}

#[test]
fn bearer_header_values() {
    assert_eq!(bearer_from_header(Some("Bearer abc.def")).unwrap(), "abc.def");
    assert!(bearer_from_header(Some("bearer abc")).is_none());
    assert!(bearer_from_header(Some("Basic xyz")).is_none());
    assert!(bearer_from_header(None).is_none());
}

#[test]
fn websocket_subprotocol_bearer() {
    let values = vec!["chat, json".to_string(), " foo , bearer.tok123 ,bearer.other".to_string()];
    assert_eq!(ws_bearer_subprotocol(&values).unwrap(), "tok123");
    assert!(ws_bearer_subprotocol(&vec!["chat".to_string()]).is_none());
    assert!(ws_bearer_subprotocol(&vec![]).is_none());
}
