use nub::client::engine::{
    candidate_sockets, kind_from_ping, parse_docker_host, resolve_address, status_error, Address, Engine, EngineKind, Error,
};
use nub::client::framing::{short_id, LineBuffer, Multiplexer, MultiplexerMode};
use nub::client::query::{encode_into, Query};

#[test]
fn query_builds_and_encodes() {
    let mut q = Query::new();
    q.push("all", "true").push_bool("follow", false).push("filters", "{\"label\":[\"a b\"]}");
    assert_eq!(q.finish(), "?all=true&follow=false&filters=%7B%22label%22%3A%5B%22a%20b%22%5D%7D");
    assert_eq!(Query::new().finish(), "");
}

#[test]
fn percent_encoding_keeps_unreserved_bytes() {
    let mut out = String::from("x=");
    encode_into(&mut out, "AZaz09-_.~ é");
    assert_eq!(out, "x=AZaz09-_.~%20%C3%A9");
}

#[test]
fn short_ids() {
    assert_eq!(short_id("sha256:0123456789abcdef0123"), "0123456789ab");
    assert_eq!(short_id("0123456789abcdef"), "0123456789ab");
    assert_eq!(short_id("abc"), "abc");
    assert_eq!(short_id("sha256:"), "");
}

#[test]
fn lines_are_split_and_flushed() {
    let mut lb = LineBuffer::new();
    lb.push(b"one\ntw");
    assert_eq!(&lb.take_line().unwrap()[..], b"one");
    assert!(lb.take_line().is_none());
    lb.push(b"o\n\nthree");
    assert_eq!(&lb.take_line().unwrap()[..], b"two");
    assert_eq!(&lb.take_line().unwrap()[..], b"");
    assert!(lb.take_line().is_none());
    assert_eq!(&lb.flush_eof().unwrap()[..], b"three");
    assert!(lb.flush_eof().is_none());
}

#[test]
fn multiplexed_frames_are_parsed() {
    let mut m = Multiplexer::new(MultiplexerMode::Detect);
    assert!(m.next_frame().is_none());
    m.push(&[1, 0, 0, 0, 0, 0, 0, 3, b'a', b'b']);
    assert!(m.next_frame().is_none());
    m.push(&[b'c', 2, 0, 0, 0, 0, 0, 0, 1, b'!', 1]);
    let f = m.next_frame().unwrap();
    assert!(!f.stderr);
    assert_eq!(&f.data[..], b"abc");
    let f = m.next_frame().unwrap();
    assert!(f.stderr);
    assert_eq!(&f.data[..], b"!");
    assert!(m.next_frame().is_none());
    let rest = m.finish().unwrap();
    assert!(!rest.stderr);
    assert_eq!(&rest.data[..], &[1u8][..]);
}

#[test]
fn tty_output_passes_through() {
    let mut m = Multiplexer::new(MultiplexerMode::Detect);
    m.push(b"hello");
    let f = m.next_frame().unwrap();
    assert_eq!(&f.data[..], b"hello");
    assert!(m.next_frame().is_none());
    assert!(m.finish().is_none());
    let mut t = Multiplexer::new(MultiplexerMode::Tty);
    t.push(&[1, 2, 3]);
    assert_eq!(&t.next_frame().unwrap().data[..], &[1u8, 2, 3][..]);
}

#[test]
fn docker_host_schemes() {
    match parse_docker_host("unix:///run/docker.sock").unwrap() {
        Address::Unix(p) => assert_eq!(p, "/run/docker.sock"),
        _ => panic!("wrong scheme"),
    }
    match parse_docker_host("tcp://localhost:2375").unwrap() {
        Address::Tcp(h) => assert_eq!(h, "localhost:2375"),
        _ => panic!("wrong scheme"),
    }
    assert_eq!(parse_docker_host("ssh://box").unwrap_err(), "unsupported DOCKER_HOST scheme: ssh://box");
}

#[test]
fn sockets_are_probed_in_order() {
    assert_eq!(
        candidate_sockets(Some("/run/user/1000")),
        vec![
            "/run/user/1000/docker.sock",
            "/run/user/1000/podman/podman.sock",
            "/var/run/docker.sock",
            "/run/podman/podman.sock"
        ]
    );
    assert_eq!(candidate_sockets(None), vec!["/var/run/docker.sock", "/run/podman/podman.sock"]);
    let c = candidate_sockets(None);
    match resolve_address(None, &c, &vec![false, true]).unwrap() {
        Address::Unix(p) => assert_eq!(p, "/run/podman/podman.sock"),
        _ => panic!("wrong address"),
    }
    assert!(resolve_address(None, &c, &vec![false, false]).unwrap_err().starts_with("no docker or podman socket found."));
    assert!(matches!(resolve_address(Some("tcp://h:1"), &c, &vec![false, false]).unwrap(), Address::Tcp(_)));
}

#[test]
fn engine_kind_and_display() {
    assert_eq!(kind_from_ping(Some(200)), EngineKind::Podman);
    assert_eq!(kind_from_ping(Some(404)), EngineKind::Docker);
    assert_eq!(kind_from_ping(None), EngineKind::Docker);
    let e = Engine::new(Address::Unix("/run/podman/podman.sock".into()), EngineKind::Podman);
    assert_eq!(e.kind(), EngineKind::Podman);
    assert_eq!(e.address_display(), "unix:///run/podman/podman.sock");
    assert_eq!(Address::Tcp("localhost:2375".into()).display(), "tcp://localhost:2375");
}

#[test]
fn engine_error_messages() {
    assert_eq!(Error::Transport("boom".into()).message(), "transport: boom");
    assert_eq!(Error::Status { code: 404, message: "no such container".into() }.message(), "engine returned 404: no such container");
    assert_eq!(Error::Decode("bad".into()).message(), "decode: bad");
}

#[test]
fn status_errors_prefer_the_engine_message() {
    let e = status_error(409, Some("conflict".into()), Some("cause".into()), b"raw");
    assert_eq!(e.message(), "engine returned 409: conflict");
    let e = status_error(500, None, Some("cause".into()), b"raw");
    assert_eq!(e.message(), "engine returned 500: cause");
    let e = status_error(500, None, None, b"raw \xff body");
    assert_eq!(e.message(), "engine returned 500: raw \u{fffd} body");
}
