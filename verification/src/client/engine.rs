//! The engine handle: where the socket is, whether it is Docker or
//! Podman, and the errors of talking to it. Connecting, probing and every
//! request happen in the binary; this module holds the decisions.

use vstd::prelude::*;
use vstd::string::StringExecFns;

use crate::num::{decimal, format_u64};
use crate::text::{chars_start_with, from_chars, slice_chars, starts_with, to_chars, utf8_lossy, utf8_lossy_string};

verus! {

/// Which engine the socket belongs to. Decides which paths an op uses
/// (libpod or compat).
#[derive(Debug, Clone, Copy, PartialEq, Eq, Structural)]
pub enum EngineKind {
    Docker,
    Podman,
}

/// Where the engine listens.
#[derive(Debug, Clone)]
pub enum Address {
    /// A Unix socket path.
    Unix(String),
    /// A `host:port`.
    Tcp(String),
}

/// `unix://<path>` or `tcp://<host:port>`.
pub open spec fn address_text(a: Address) -> Seq<char> {
    match a {
        Address::Unix(p) => "unix://"@ + p@,
        Address::Tcp(s) => "tcp://"@ + s@,
    }
}

impl Address {
    /// The address as a URL-ish string, for diagnostics.
    pub fn display(&self) -> (res: String)
        ensures
            res@ == address_text(*self),
    {
        match self {
            Address::Unix(p) => {
                let mut s = String::from_str("unix://");
                s.append(p.as_str());
                s
            },
            Address::Tcp(h) => {
                let mut s = String::from_str("tcp://");
                s.append(h.as_str());
                s
            },
        }
    }
}

/// A connection handle: configuration only. Each call opens a fresh
/// socket; there is no pooling.
#[derive(Debug, Clone)]
pub struct Engine {
    address: Address,
    kind: EngineKind,
}

impl Engine {
    /// The handle for an engine found at `address`.
    pub fn new(address: Address, kind: EngineKind) -> (res: Engine)
        ensures
            res.spec_address() == address,
            res.spec_kind() == kind,
    {
        Engine { address, kind }
    }

    /// The engine's address.
    pub closed spec fn spec_address(&self) -> Address {
        self.address
    }

    /// The engine's kind.
    pub closed spec fn spec_kind(&self) -> EngineKind {
        self.kind
    }

    /// The engine's kind.
    pub fn kind(&self) -> (res: EngineKind)
        ensures
            res == self.spec_kind(),
    {
        self.kind
    }

    /// The address, for diagnostics (`unix:///run/.../podman.sock`,
    /// `tcp://localhost:2375`).
    pub fn address_display(&self) -> (res: String)
        ensures
            res@ == address_text(self.spec_address()),
    {
        self.address.display()
    }

    /// The address itself.
    pub fn address(&self) -> (res: &Address)
        ensures
            *res == self.spec_address(),
    {
        &self.address
    }
}

/// A failed engine call.
#[derive(Debug)]
pub enum Error {
    /// I/O error talking to the engine socket.
    Transport(String),
    /// The engine answered non-2xx. `message` is the engine's own error
    /// text when it gave one, otherwise the raw body.
    Status { code: u16, message: String },
    /// The response was not shaped as expected.
    Decode(String),
}

/// The text of an engine error.
pub open spec fn error_text(e: Error) -> Seq<char> {
    match e {
        Error::Transport(m) => "transport: "@ + m@,
        Error::Status { code, message } => "engine returned "@ + decimal(code as nat) + ": "@ + message@,
        Error::Decode(m) => "decode: "@ + m@,
    }
}

impl Error {
    /// The error's text.
    pub fn message(&self) -> (res: String)
        ensures
            res@ == error_text(*self),
    {
        match self {
            Error::Transport(m) => {
                let mut s = String::from_str("transport: ");
                s.append(m.as_str());
                s
            },
            Error::Status { code, message } => {
                let mut s = String::from_str("engine returned ");
                s.append(format_u64(*code as u64).as_str());
                s.append(": ");
                s.append(message.as_str());
                s
            },
            Error::Decode(m) => {
                let mut s = String::from_str("decode: ");
                s.append(m.as_str());
                s
            },
        }
    }
}

/// An address as (is a Unix socket, path or `host:port`).
pub open spec fn address_view(a: Address) -> (bool, Seq<char>) {
    match a {
        Address::Unix(p) => (true, p@),
        Address::Tcp(h) => (false, h@),
    }
}

/// A `DOCKER_HOST` value: `unix://<path>` or `tcp://<host:port>`.
pub open spec fn spec_docker_host(s: Seq<char>) -> Result<(bool, Seq<char>), Seq<char>> {
    if starts_with(s, "unix://"@) {
        Ok((true, s.subrange(7, s.len() as int)))
    } else if starts_with(s, "tcp://"@) {
        Ok((false, s.subrange(6, s.len() as int)))
    } else {
        Err("unsupported DOCKER_HOST scheme: "@ + s)
    }
}

/// Parses a `DOCKER_HOST` value.
pub fn parse_docker_host(s: &str) -> (res: Result<Address, String>)
    ensures
        match spec_docker_host(s@) {
            Ok(v) => res matches Ok(a) && address_view(a) == v,
            Err(m) => res matches Err(e) && e@ == m,
        },
{
    proof {
        reveal_strlit("unix://");
        reveal_strlit("tcp://");
    }
    let c = to_chars(s);
    if chars_start_with(c.as_slice(), to_chars("unix://").as_slice()) {
        return Ok(Address::Unix(from_chars(slice_chars(c.as_slice(), 7, c.len()).as_slice())));
    }
    if chars_start_with(c.as_slice(), to_chars("tcp://").as_slice()) {
        return Ok(Address::Tcp(from_chars(slice_chars(c.as_slice(), 6, c.len()).as_slice())));
    }
    let mut m = String::from_str("unsupported DOCKER_HOST scheme: ");
    m.append(s);
    Err(m)
}

/// `base` joined with the relative path `rel`, as `PathBuf::join` does:
/// a separator is added unless `base` is empty or already ends in one.
pub open spec fn join_path(base: Seq<char>, rel: Seq<char>) -> Seq<char> {
    if base.len() == 0 {
        rel
    } else if base.last() == '/' {
        base + rel
    } else {
        base + seq!['/'] + rel
    }
}

/// Joins a relative path onto `base`.
pub fn join(base: &str, rel: &str) -> (res: String)
    ensures
        res@ == join_path(base@, rel@),
{
    let c = to_chars(base);
    let mut out = String::from_str(base);
    if c.len() > 0 && c[c.len() - 1] != '/' {
        out.append("/");
        proof {
            reveal_strlit("/");
        }
    }
    out.append(rel);
    proof {
        if base@.len() > 0 {
            assert(c@.last() == base@.last());
        }
    }
    out
}

/// The socket paths probed, in order: under `$XDG_RUNTIME_DIR` when it is
/// set, then the system-wide Docker and Podman sockets.
pub open spec fn spec_candidate_sockets(xdg: Option<Seq<char>>) -> Seq<Seq<char>> {
    let system = seq!["/var/run/docker.sock"@, "/run/podman/podman.sock"@];
    match xdg {
        Some(x) => seq![join_path(x, "docker.sock"@), join_path(x, "podman/podman.sock"@)] + system,
        None => system,
    }
}

/// The socket paths to probe.
pub fn candidate_sockets(xdg: Option<&str>) -> (res: Vec<String>)
    ensures
        crate::compose::wire::strs(res@) == spec_candidate_sockets(
            match xdg {
                Some(x) => Some(x@),
                None => None,
            },
        ),
{
    let mut out: Vec<String> = Vec::new();
    if let Some(x) = xdg {
        out.push(join(x, "docker.sock"));
        out.push(join(x, "podman/podman.sock"));
    }
    out.push(String::from_str("/var/run/docker.sock"));
    out.push(String::from_str("/run/podman/podman.sock"));
    assert(crate::compose::wire::strs(out@) =~= spec_candidate_sockets(
        match xdg {
            Some(x) => Some(x@),
            None => None,
        },
    ));
    out
}

/// What is printed when no socket is found.
pub open spec fn no_socket_message() -> Seq<char> {
    "no docker or podman socket found.\n\nif podman is installed, enable its socket (it's daemonless and not started by default):\n  rootless: systemctl --user enable --now podman.socket\n  rootful:  sudo systemctl enable --now podman.socket\n\nif docker is installed, ensure the daemon is running.\n\noverride with DOCKER_HOST."@
}

/// The first index whose flag is set.
pub open spec fn first_set(flags: Seq<bool>, from: int) -> Option<int>
    decreases flags.len() - from,
{
    if from < 0 || from >= flags.len() {
        None
    } else if flags[from] {
        Some(from)
    } else {
        first_set(flags, from + 1)
    }
}

/// Picks the engine address: `DOCKER_HOST` when it is set, else the first
/// candidate socket that exists (`exists[i]` tells of `candidates[i]`).
pub fn resolve_address(docker_host: Option<&str>, candidates: &Vec<String>, exists: &Vec<bool>) -> (res: Result<
    Address,
    String,
>)
    requires
        candidates@.len() == exists@.len(),
    ensures
        match docker_host {
            Some(h) => match spec_docker_host(h@) {
                Ok(v) => res matches Ok(a) && address_view(a) == v,
                Err(m) => res matches Err(e) && e@ == m,
            },
            None => match first_set(exists@, 0) {
                Some(i) => res matches Ok(Address::Unix(p)) && p@ == candidates@[i]@,
                None => res matches Err(m) && m@ == no_socket_message(),
            },
        },
{
    if let Some(h) = docker_host {
        return parse_docker_host(h);
    }
    let mut i: usize = 0;
    while i < candidates.len()
        invariant
            i <= candidates@.len(),
            candidates@.len() == exists@.len(),
            docker_host is None,
            first_set(exists@, 0) == first_set(exists@, i as int),
        decreases candidates@.len() - i,
    {
        if exists[i] {
            return Ok(Address::Unix(candidates[i].clone()));
        }
        i = i + 1;
    }
    Err(String::from_str("no docker or podman socket found.\n\nif podman is installed, enable its socket (it's daemonless and not started by default):\n  rootless: systemctl --user enable --now podman.socket\n  rootful:  sudo systemctl enable --now podman.socket\n\nif docker is installed, ensure the daemon is running.\n\noverride with DOCKER_HOST."))
}

/// The kind of engine, from the answer to libpod's `_ping`: a 2xx status
/// means Podman; anything else (no answer, 404, an error) means Docker.
pub fn kind_from_ping(status: Option<u16>) -> (res: EngineKind)
    ensures
        res == (if status matches Some(s) && 200 <= s < 300 {
            EngineKind::Podman
        } else {
            EngineKind::Docker
        }),
{
    match status {
        Some(s) => if 200 <= s && s < 300 {
            EngineKind::Podman
        } else {
            EngineKind::Docker
        },
        None => EngineKind::Docker,
    }
}

/// The error for a non-2xx answer: the engine's own message when its JSON
/// body carried one (`message`, else `cause`), otherwise the body read as
/// UTF-8 with invalid sequences replaced.
pub fn status_error(code: u16, message: Option<String>, cause: Option<String>, body: &[u8]) -> (res: Error)
    ensures
        res matches Error::Status { code: c, message: m } && c == code && m@ == match message {
            Some(x) => x@,
            None => match cause {
                Some(y) => y@,
                None => utf8_lossy(body@),
            },
        },
{
    let text = match message {
        Some(x) => x,
        None => match cause {
            Some(y) => y,
            None => utf8_lossy_string(body),
        },
    };
    Error::Status { code, message: text }
}

} // verus!
