//! `nub update`: which release to fetch, where it is, and whether there
//! is anything to do. Downloading (with `curl` and `tar`), swapping the
//! binary and restarting are the binary's.

use vstd::prelude::*;
use vstd::string::StringExecFns;

use super::error::CliError;
use crate::text::{from_chars, slice_chars, to_chars};

verus! {

/// A release tag: `v` prefixed unless already there.
pub open spec fn spec_normalize_tag(s: Seq<char>) -> Seq<char> {
    if s.len() > 0 && s[0] == 'v' {
        s
    } else {
        seq!['v'] + s
    }
}

/// A pinned version as a release tag.
pub fn normalize_tag(s: &str) -> (res: String)
    ensures
        res@ == spec_normalize_tag(s@),
{
    let c = to_chars(s);
    if c.len() > 0 && c[0] == 'v' {
        String::from_str(s)
    } else {
        let mut out = String::new();
        out.push('v');
        out.append(s);
        out
    }
}

/// The release target for a CPU architecture.
pub open spec fn spec_target(arch: Seq<char>) -> Result<Seq<char>, Seq<char>> {
    if arch == "x86_64"@ {
        Ok("x86_64-unknown-linux-musl"@)
    } else if arch == "aarch64"@ {
        Ok("aarch64-unknown-linux-musl"@)
    } else {
        Err("unsupported architecture: "@ + arch)
    }
}

/// The release target for `arch` (`std::env::consts::ARCH`).
pub fn detect_target(arch: &str) -> (res: Result<String, CliError>)
    ensures
        match spec_target(arch@) {
            Ok(t) => res matches Ok(r) && r@ == t,
            Err(m) => res matches Err(e) && e.0@ == m,
        },
{
    if crate::text::str_eq(arch, "x86_64") {
        Ok(String::from_str("x86_64-unknown-linux-musl"))
    } else if crate::text::str_eq(arch, "aarch64") {
        Ok(String::from_str("aarch64-unknown-linux-musl"))
    } else {
        let mut m = String::from_str("unsupported architecture: ");
        m.append(arch);
        Err(CliError(m))
    }
}

/// `s` without its leading `v`s.
pub open spec fn trim_leading_v(s: Seq<char>) -> Seq<char>
    decreases s.len(),
{
    if s.len() > 0 && s[0] == 'v' {
        trim_leading_v(s.drop_first())
    } else {
        s
    }
}

/// The version a tag names.
pub fn tag_version(tag: &str) -> (res: String)
    ensures
        res@ == trim_leading_v(tag@),
{
    let c = to_chars(tag);
    let n = c.len();
    let mut i: usize = 0;
    assert(c@.subrange(0, n as int) =~= c@);
    while i < n && c[i] == 'v'
        invariant
            i <= n,
            n == c@.len(),
            trim_leading_v(c@) == trim_leading_v(c@.subrange(i as int, n as int)),
        decreases n - i,
    {
        assert(c@.subrange(i as int, n as int).drop_first() =~= c@.subrange(i + 1, n as int));
        i = i + 1;
    }
    from_chars(slice_chars(c.as_slice(), i, n).as_slice())
}

/// The download URL of a release archive.
pub open spec fn spec_release_url(tag: Seq<char>, target: Seq<char>) -> Seq<char> {
    "https://github.com/TerryTsai/nub/releases/download/"@ + tag + "/nub-"@ + tag + "-"@ + target + ".tar.gz"@
}

/// The download URL of a release archive.
pub fn release_url(tag: &str, target: &str) -> (res: String)
    ensures
        res@ == spec_release_url(tag@, target@),
{
    let mut s = String::from_str("https://github.com/TerryTsai/nub/releases/download/");
    s.append(tag);
    s.append("/nub-");
    s.append(tag);
    s.append("-");
    s.append(target);
    s.append(".tar.gz");
    s
}

/// The GitHub API URL of the latest release.
pub fn latest_release_api_url() -> (res: String)
    ensures
        res@ == "https://api.github.com/repos/TerryTsai/nub/releases/latest"@,
{
    String::from_str("https://api.github.com/repos/TerryTsai/nub/releases/latest")
}

/// What `nub update` does once both versions are known.
#[derive(Debug, Clone, Copy, PartialEq, Eq, Structural)]
pub enum UpdatePlan {
    /// `--check`: report only; `up_to_date` tells which message to print.
    Report { up_to_date: bool },
    /// Already on the latest version.
    NothingToDo,
    /// Download and swap in the new binary.
    Install,
}

/// The plan for `current` and `latest` versions.
pub fn plan_update(current: &str, latest: &str, check: bool) -> (res: UpdatePlan)
    ensures
        res == (if check {
            UpdatePlan::Report { up_to_date: current@ == latest@ }
        } else if current@ == latest@ {
            UpdatePlan::NothingToDo
        } else {
            UpdatePlan::Install
        }),
{
    let same = crate::text::str_eq(current, latest);
    if check {
        UpdatePlan::Report { up_to_date: same }
    } else if same {
        UpdatePlan::NothingToDo
    } else {
        UpdatePlan::Install
    }
}

/// The message when a required tool is missing.
pub fn missing_tool_message(bin: &str) -> (res: String)
    ensures
        res@ == "`"@ + bin@ + "` not found in PATH (required for nub update)"@,
{
    let mut s = String::from_str("`");
    s.append(bin);
    s.append("` not found in PATH (required for nub update)");
    s
}

/// The release target names the host's architecture: whenever one is
/// found it is `<arch>-unknown-linux-musl`, and the two architectures
/// with published builds both have one.
pub proof fn law_target_matches_arch(arch: Seq<char>)
    ensures
        spec_target(arch) matches Ok(t) ==> t == arch + "-unknown-linux-musl"@,
        arch == "x86_64"@ || arch == "aarch64"@ ==> spec_target(arch) is Ok,
{
    reveal_strlit("x86_64");
    reveal_strlit("aarch64");
    reveal_strlit("x86_64-unknown-linux-musl");
    reveal_strlit("aarch64-unknown-linux-musl");
    reveal_strlit("-unknown-linux-musl");
    if arch == "x86_64"@ {
        assert("x86_64-unknown-linux-musl"@ =~= arch + "-unknown-linux-musl"@);
    } else if arch == "aarch64"@ {
        assert("aarch64-unknown-linux-musl"@ =~= arch + "-unknown-linux-musl"@);
    }
}

} // verus!
