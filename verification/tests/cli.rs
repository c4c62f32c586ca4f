use nub::cli::bind::{allow_path, deny_path, locate_config, read_binds, update_binds, BindChange};
use nub::cli::connect::{build_url, display_authority, render_qr, url_for_banner};
use nub::cli::hostname::hostname_from;
use nub::cli::install::{is_root, manage_hints, pick_scope, render_unit, unit_path, UnitScope};
use nub::cli::prompt::{is_y, is_yes};
use nub::cli::restart::{active_state, detect_scope};
use nub::cli::secret::{secrets_root, stored_value};
use nub::cli::status::systemd_state;
use nub::cli::update::{detect_target, normalize_tag, plan_update, release_url, tag_version, UpdatePlan};
use nub::config::file::Config;

#[test]
fn authority_substitutes_unspecified_hosts() {
    assert_eq!(display_authority("0.0.0.0:8080", "box"), "box:8080");
    assert_eq!(display_authority("[::]:8080", "box"), "box:8080");
    assert_eq!(display_authority(":8080", "box"), "box:8080");
    assert_eq!(display_authority("192.168.1.5:80", "box"), "192.168.1.5:80");
    assert_eq!(display_authority("[::1]:8080", "box"), "[::1]:8080");
    assert_eq!(display_authority("[fe80::2]", "box"), "[fe80::2]");
    assert_eq!(display_authority("[]:7", "box"), "box:7");
    assert_eq!(display_authority("myhost", "box"), "myhost");
    assert_eq!(display_authority("0.0.0.0", "box"), "box");
}

#[test]
fn connect_urls() {
    assert_eq!(url_for_banner("0.0.0.0:8080", false, "T", "box"), "http://box:8080/add#t=T");
    assert_eq!(url_for_banner("10.0.0.1:443", true, "T", "box"), "https://10.0.0.1:443/add#t=T");
    let cfg = Config::default();
    assert_eq!(build_url(&cfg, "tok", "h"), "http://h:8080/add#t=tok");
    let cfg = Config {
        listen: Some("1.2.3.4:9".into()),
        tls_cert: Some("c".into()),
        tls_key: Some("k".into()),
        ..Default::default()
    };
    assert_eq!(build_url(&cfg, "tok", "h"), "https://1.2.3.4:9/add#t=tok");
    let half = Config { tls_cert: Some("c".into()), ..Default::default() };
    assert!(build_url(&half, "tok", "h").starts_with("http://"));
}

#[test]
fn systemd_units() {
    assert_eq!(pick_scope(false, false), UnitScope::User);
    assert_eq!(pick_scope(true, false), UnitScope::User);
    assert_eq!(pick_scope(false, true), UnitScope::System);
    assert_eq!(unit_path(UnitScope::User, "/home/u/.config"), "/home/u/.config/systemd/user/nub.service");
    assert_eq!(unit_path(UnitScope::System, "/x"), "/etc/systemd/system/nub.service");
    let u = render_unit(UnitScope::User, Some("/opt/nub"));
    assert!(u.contains("ExecStart=/opt/nub run\n"));
    assert!(u.ends_with("WantedBy=default.target\n"));
    let s = render_unit(UnitScope::System, None);
    assert!(s.contains("ExecStart=/usr/local/bin/nub run\n"));
    assert!(s.contains("Wants=network-online.target\n"));
    assert_eq!(manage_hints(UnitScope::System), vec!["  sudo systemctl status nub", "  sudo systemctl restart nub", "  sudo journalctl -u nub -f"]);
}

#[test]
fn root_detection() {
    assert!(is_root(Some("root"), None));
    assert!(!is_root(Some("me"), None));
    assert!(is_root(None, Some("Name:\tx\nUid:\t0\t0\t0\t0\n")));
    assert!(!is_root(None, Some("Name:\tx\nUid:\t1000\t1000\t1000\t1000\n")));
    assert!(!is_root(None, Some("Uid:\n")));
    assert!(!is_root(None, Some("Uid:\t-0\n")));
}

#[test]
fn restart_and_status_pick_the_unit() {
    assert_eq!(detect_scope(true, true).unwrap(), UnitScope::User);
    assert_eq!(detect_scope(false, true).unwrap(), UnitScope::System);
    assert_eq!(detect_scope(false, false).unwrap_err().0, "no nub systemd unit found; run `nub install systemd` first");
    assert_eq!(active_state(Some(b"active\n")), "active");
    assert_eq!(active_state(None), "unknown");
    let (label, state) = systemd_state(Some(UnitScope::System), Some(b" inactive ")).unwrap();
    assert_eq!((label, state.as_str()), ("system", "inactive"));
    assert!(systemd_state(None, None).is_none());
}

#[test]
fn update_planning() {
    assert_eq!(normalize_tag("0.1.0"), "v0.1.0");
    assert_eq!(normalize_tag("v0.1.0"), "v0.1.0");
    assert_eq!(detect_target("x86_64").unwrap(), "x86_64-unknown-linux-musl");
    assert_eq!(detect_target("riscv64").unwrap_err().0, "unsupported architecture: riscv64");
    assert_eq!(tag_version("vv1.2"), "1.2");
    assert_eq!(
        release_url("v1.2.3", "aarch64-unknown-linux-musl"),
        "https://github.com/TerryTsai/nub/releases/download/v1.2.3/nub-v1.2.3-aarch64-unknown-linux-musl.tar.gz"
    );
    assert_eq!(plan_update("1.0", "1.0", true), UpdatePlan::Report { up_to_date: true });
    assert_eq!(plan_update("1.0", "1.1", false), UpdatePlan::Install);
    assert_eq!(plan_update("1.1", "1.1", false), UpdatePlan::NothingToDo);
}

#[test]
fn secrets_and_prompts() {
    assert_eq!(secrets_root(None, "/d".into()), "/d");
    assert_eq!(secrets_root(Some("/c".into()), "/d".into()), "/c");
    assert_eq!(stored_value("pw\n"), "pw");
    assert_eq!(stored_value("pw\n\n"), "pw\n");
    assert_eq!(stored_value("pw"), "pw");
    assert!(is_yes(" YES\n"));
    assert!(is_yes("y"));
    assert!(!is_yes("yep"));
    assert!(is_y(" Y "));
    assert!(!is_y("yes"));
}

#[test]
fn hostnames() {
    assert_eq!(hostname_from(Some("box\n"), Some("other")), "box");
    assert_eq!(hostname_from(None, Some(" k ")), "k");
    assert_eq!(hostname_from(Some("  \n"), Some("k")), "nub");
    assert_eq!(hostname_from(None, None), "nub");
}

#[test]
fn bind_list_edits() {
    let mut l = vec!["/a".to_string()];
    assert!(allow_path(&mut l, "/b".into()));
    assert!(!allow_path(&mut l, "/b".into()));
    assert_eq!(l, vec!["/a", "/b"]);
    assert!(deny_path(&mut l, "/a"));
    assert!(!deny_path(&mut l, "/a"));
    assert_eq!(l, vec!["/b"]);
    assert_eq!(locate_config(None).unwrap_err().0, "no nub.toml found; run `nub init` first");
}

#[test]
fn bind_toml_round_trip() {
    let text = "# my config\nid = \"x\"\nallowed_binds = [\"/a\", 3]\n";
    assert_eq!(read_binds(text).unwrap(), vec!["/a"]);
    let next = update_binds(text, BindChange::Allow("/b".into())).unwrap().unwrap();
    assert!(next.starts_with("# my config\n"));
    assert_eq!(read_binds(&next).unwrap(), vec!["/a", "/b"]);
    assert!(update_binds(&next, BindChange::Allow("/a".into())).unwrap().is_none());
    let back = update_binds(&next, BindChange::Deny("/b".into())).unwrap().unwrap();
    assert_eq!(read_binds(&back).unwrap(), vec!["/a"]);
    assert!(read_binds("id = \"x\"\n").unwrap().is_empty());
    assert!(read_binds("id = = \n").is_err());
}

#[test]
fn connect_qr_is_drawn_in_blocks() {
    let url = "http://box:8080/add#t=abc";
    let qr = render_qr(url).unwrap();
    assert!(qr.starts_with('\n'));
    assert!(!qr.contains(url));
    assert!(qr.lines().count() > 10);
    assert!(qr.chars().any(|c| c == '\u{2588}' || c == '\u{2580}' || c == '\u{2584}' || c == ' '));
}
