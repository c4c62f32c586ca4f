//! `nub install systemd`: which unit (user or system), where it goes, and
//! its text. `ExecStart` is the running binary's path, so the unit always
//! points at the nub that wrote it.

use vstd::prelude::*;
use vstd::string::StringExecFns;

use super::error::CliError;
use crate::client::engine::{join, join_path};
use crate::num::spec_parse_i64;
use crate::text::{from_chars, split_char, split_chars, split_unicode_ws, starts_with, to_chars, unicode_tokens, views};

verus! {

/// A user-level or a system-level systemd unit.
#[derive(Debug, Clone, Copy, PartialEq, Eq, Structural)]
pub enum UnitScope {
    User,
    System,
}

/// `user` or `system`.
pub open spec fn spec_scope_label(scope: UnitScope) -> Seq<char> {
    match scope {
        UnitScope::User => "user"@,
        UnitScope::System => "system"@,
    }
}

/// `user` or `system`.
pub fn scope_label(scope: UnitScope) -> (res: &'static str)
    ensures
        res@ == spec_scope_label(scope),
{
    match scope {
        UnitScope::User => "user",
        UnitScope::System => "system",
    }
}

/// The unit to install from the `--user` / `--system` flags, which
/// exclude each other: system when asked, else user (most homelab
/// installs avoid root).
pub fn pick_scope(user: bool, system: bool) -> (res: UnitScope)
    requires
        !(user && system),
    ensures
        res == (if system {
            UnitScope::System
        } else {
            UnitScope::User
        }),
{
    if system {
        UnitScope::System
    } else {
        UnitScope::User
    }
}

/// Where the unit file lives.
pub open spec fn spec_unit_path(scope: UnitScope, config_home: Seq<char>) -> Seq<char> {
    match scope {
        UnitScope::User => join_path(config_home, "systemd/user/nub.service"@),
        UnitScope::System => "/etc/systemd/system/nub.service"@,
    }
}

/// Where the unit file lives, given the config home.
pub fn unit_path(scope: UnitScope, config_home: &str) -> (res: String)
    ensures
        res@ == spec_unit_path(scope, config_home@),
{
    match scope {
        UnitScope::User => join(config_home, "systemd/user/nub.service"),
        UnitScope::System => String::from_str("/etc/systemd/system/nub.service"),
    }
}

/// The user-level unit's text before the executable path.
pub open spec fn user_unit_head() -> Seq<char> {
    "[Unit]\nDescription=nub Docker/Podman control plane\nAfter=default.target\n\n[Service]\nType=simple\nExecStart="@
}

/// The user-level unit's text after the executable path.
pub open spec fn user_unit_tail() -> Seq<char> {
    " run\nRestart=on-failure\nRestartSec=2s\n\n[Install]\nWantedBy=default.target\n"@
}

/// The system-level unit's text before the executable path.
pub open spec fn system_unit_head() -> Seq<char> {
    "[Unit]\nDescription=nub Docker/Podman control plane\nAfter=network-online.target\nWants=network-online.target\n\n[Service]\nType=simple\nExecStart="@
}

/// The system-level unit's text after the executable path.
pub open spec fn system_unit_tail() -> Seq<char> {
    " run\nRestart=on-failure\nRestartSec=2s\n\n[Install]\nWantedBy=multi-user.target\n"@
}

/// The user-level unit running `<exec> run`.
pub fn user_unit(exec: &str) -> (res: String)
    ensures
        res@ == user_unit_head() + exec@ + user_unit_tail(),
{
    let mut s = String::from_str(
        "[Unit]\nDescription=nub Docker/Podman control plane\nAfter=default.target\n\n[Service]\nType=simple\nExecStart=",
    );
    s.append(exec);
    s.append(" run\nRestart=on-failure\nRestartSec=2s\n\n[Install]\nWantedBy=default.target\n");
    s
}

/// The system-level unit running `<exec> run`.
pub fn system_unit(exec: &str) -> (res: String)
    ensures
        res@ == system_unit_head() + exec@ + system_unit_tail(),
{
    let mut s = String::from_str(
        "[Unit]\nDescription=nub Docker/Podman control plane\nAfter=network-online.target\nWants=network-online.target\n\n[Service]\nType=simple\nExecStart=",
    );
    s.append(exec);
    s.append(" run\nRestart=on-failure\nRestartSec=2s\n\n[Install]\nWantedBy=multi-user.target\n");
    s
}

/// The executable path for `ExecStart`: the running binary's path when it
/// is known and readable as text, else `/usr/local/bin/nub`.
pub open spec fn spec_exec_path(current: Option<Seq<char>>) -> Seq<char> {
    match current {
        Some(p) => p,
        None => "/usr/local/bin/nub"@,
    }
}

/// The unit text for `scope`, given the running binary's path.
pub fn render_unit(scope: UnitScope, current_exe: Option<&str>) -> (res: String)
    ensures
        ({
            let exec = spec_exec_path(
                match current_exe {
                    Some(p) => Some(p@),
                    None => None,
                },
            );
            res@ == match scope {
                UnitScope::User => user_unit_head() + exec + user_unit_tail(),
                UnitScope::System => system_unit_head() + exec + system_unit_tail(),
            }
        }),
{
    let exec = match current_exe {
        Some(p) => String::from_str(p),
        None => String::from_str("/usr/local/bin/nub"),
    };
    match scope {
        UnitScope::User => user_unit(exec.as_str()),
        UnitScope::System => system_unit(exec.as_str()),
    }
}

/// A system-level install needs root.
pub fn check_install(scope: UnitScope, is_root: bool) -> (res: Result<(), CliError>)
    ensures
        res is Ok <==> (scope == UnitScope::User || is_root),
        res matches Err(e) ==> e.0@ == "system-level install needs root; run with sudo or pass --user"@,
{
    if scope == UnitScope::System && !is_root {
        return Err(CliError(String::from_str("system-level install needs root; run with sudo or pass --user")));
    }
    Ok(())
}

/// The commands printed after an install, one per line.
pub open spec fn spec_manage_hints(scope: UnitScope) -> Seq<Seq<char>> {
    let (prefix, journal) = match scope {
        UnitScope::User => ("systemctl --user"@, "journalctl --user -u nub"@),
        UnitScope::System => ("sudo systemctl"@, "sudo journalctl -u nub"@),
    };
    seq!["  "@ + prefix + " status nub"@, "  "@ + prefix + " restart nub"@, "  "@ + journal + " -f"@]
}

/// The commands printed after an install.
pub fn manage_hints(scope: UnitScope) -> (res: Vec<String>)
    ensures
        crate::compose::wire::strs(res@) == spec_manage_hints(scope),
{
    let (prefix, journal) = match scope {
        UnitScope::User => ("systemctl --user", "journalctl --user -u nub"),
        UnitScope::System => ("sudo systemctl", "sudo journalctl -u nub"),
    };
    let mut a = String::from_str("  ");
    a.append(prefix);
    a.append(" status nub");
    let mut b = String::from_str("  ");
    b.append(prefix);
    b.append(" restart nub");
    let mut c = String::from_str("  ");
    c.append(journal);
    c.append(" -f");
    let mut v: Vec<String> = Vec::new();
    v.push(a);
    v.push(b);
    v.push(c);
    assert(crate::compose::wire::strs(v@) =~= spec_manage_hints(scope));
    v
}

/// The lines of a text as `str::lines` yields them: split at `\n`, a
/// final empty piece dropped, and a trailing `\r` removed from each line.
pub open spec fn text_lines(s: Seq<char>) -> Seq<Seq<char>> {
    let pieces = split_char(s, '\n');
    let kept = if s.len() > 0 && s.last() == '\n' {
        pieces.drop_last()
    } else if s.len() == 0 {
        seq![]
    } else {
        pieces
    };
    kept.map_values(|l: Seq<char>| if l.len() > 0 && l.last() == '\r' { l.drop_last() } else { l })
}

/// A decimal `u32` as `str::parse::<u32>` reads it.
pub open spec fn spec_parse_u32(s: Seq<char>) -> Option<u32> {
    if s.len() > 0 && s[0] == '-' {
        None
    } else {
        match spec_parse_i64(s) {
            Some(v) => if 0 <= v <= u32::MAX {
                Some(v as u32)
            } else {
                None
            },
            None => None,
        }
    }
}

/// The first line starting with `Uid:`, if any.
pub open spec fn first_uid_line(lines: Seq<Seq<char>>) -> Option<Seq<char>>
    decreases lines.len(),
{
    if lines.len() == 0 {
        None
    } else if starts_with(lines[0], "Uid:"@) {
        Some(lines[0])
    } else {
        first_uid_line(lines.drop_first())
    }
}

/// Running as root: `$USER` is `root`, or the real uid in
/// `/proc/self/status` (the second field of its `Uid:` line) is 0.
pub open spec fn spec_is_root(user: Option<Seq<char>>, proc_status: Option<Seq<char>>) -> bool {
    (user == Some("root"@)) || match proc_status {
        Some(st) => match first_uid_line(text_lines(st)) {
            Some(line) => unicode_tokens(line).len() > 1 && spec_parse_u32(unicode_tokens(line)[1]) == Some(0u32),
            None => false,
        },
        None => false,
    }
}

/// Whether nub runs as root, from `$USER` and the text of
/// `/proc/self/status` (each when it could be read).
pub fn is_root(user: Option<&str>, proc_status: Option<&str>) -> (res: bool)
    ensures
        res == spec_is_root(
            match user {
                Some(u) => Some(u@),
                None => None,
            },
            match proc_status {
                Some(p) => Some(p@),
                None => None,
            },
        ),
{
    if let Some(u) = user {
        if crate::text::str_eq(u, "root") {
            return true;
        }
    }
    let st = match proc_status {
        Some(p) => p,
        None => {
            return false;
        },
    };
    let c = to_chars(st);
    let pieces = split_chars(c.as_slice(), '\n');
    let ghost lines = text_lines(st@);
    let n = pieces.len();
    let keep: usize = if c.len() > 0 && c[c.len() - 1] == '\n' {
        n - 1
    } else if c.len() == 0 {
        0
    } else {
        n
    };
    proof {
        if c@.len() > 0 {
            assert(c@.last() == c@[c@.len() - 1]);
        }
        assert(views(pieces@).subrange(0, keep as int).map_values(
            |l: Seq<char>| if l.len() > 0 && l.last() == '\r' { l.drop_last() } else { l },
        ) =~= lines);
    }
    let uid_prefix = to_chars("Uid:");
    let mut i: usize = 0;
    assert(lines.subrange(0, keep as int) =~= lines);
    while i < keep
        invariant
            i <= keep <= n,
            n == pieces@.len(),
            uid_prefix@ == "Uid:"@,
            lines == views(pieces@).subrange(0, keep as int).map_values(
                |l: Seq<char>| if l.len() > 0 && l.last() == '\r' { l.drop_last() } else { l },
            ),
            first_uid_line(lines) == first_uid_line(lines.subrange(i as int, keep as int)),
            !(user matches Some(u) && u@ == "root"@),
            proc_status matches Some(ps) && lines == text_lines(ps@),
        decreases keep - i,
    {
        let p = &pieces[i];
        let line: Vec<char> = if p.len() > 0 && p[p.len() - 1] == '\r' {
            crate::text::slice_chars(p.as_slice(), 0, p.len() - 1)
        } else {
            crate::text::slice_chars(p.as_slice(), 0, p.len())
        };
        proof {
            let rest = lines.subrange(i as int, keep as int);
            assert(rest[0] == lines[i as int]);
            assert(rest.drop_first() =~= lines.subrange(i + 1, keep as int));
            if p@.len() > 0 {
                assert(p@.last() == p@[p@.len() - 1]);
                assert(p@.drop_last() =~= p@.subrange(0, p@.len() - 1));
            }
            assert(p@ =~= p@.subrange(0, p@.len() as int));
            assert(line@ == lines[i as int]);
        }
        if crate::text::chars_start_with(line.as_slice(), uid_prefix.as_slice()) {
            let fields = split_unicode_ws(line.as_slice());
            if fields.len() > 1 {
                let f = &fields[1];
                assert(views(fields@)[1] == f@);
                if f.len() > 0 && f[0] == '-' {
                    return false;
                }
                return match crate::num::parse_i64(f.as_slice()) {
                    Some(v) => v == 0,
                    None => false,
                };
            }
            return false;
        }
        i = i + 1;
    }
    false
}

} // verus!
