//! The `Scope` enum (one variant per network-exposed operation), the
//! canonical list of every scope, and the mathematical model of each
//! scope's wire string.

use vstd::prelude::*;
use vstd::string::StringExecFns;

verus! {

/// Every scope nub recognizes. One variant per network-exposed op.
#[derive(Debug, Copy, Clone, PartialEq, Eq, Hash, Structural)]
pub enum Scope {
    HostInfo,
    AuthWhoami,
    ContainersList,
    ContainersGet,
    ContainersLogs,
    ContainersStats,
    ContainersCreate,
    ContainersStart,
    ContainersStop,
    ContainersRestart,
    ContainersKill,
    ContainersRemove,
    ContainersExec,
    ImagesList,
    ImagesGet,
    ImagesPull,
    ImagesBuild,
    ImagesDelete,
    VolumesList,
    VolumesGet,
    VolumesCreate,
    VolumesDelete,
    NetworksList,
    NetworksGet,
    NetworksCreate,
    NetworksDelete,
    DockerfilesList,
    DockerfilesGet,
    DockerfilesPut,
    DockerfilesDelete,
    StacksList,
    StacksGet,
    StacksLogs,
    StacksCreate,
    StacksDelete,
    StacksRedeploy,
    StacksUpdate,
    StacksPull,
    SecretsList,
    SecretsPut,
    SecretsDelete,
    /// Privileged: read a secret's plaintext value back. No preset grants
    /// it; only `*` (admin) or `secrets:*` authorizes.
    SecretsReveal,
}

/// Resource half of a scope's wire string (the part before `:`).
pub open spec fn spec_resource(s: Scope) -> Seq<char> {
    match s {
        Scope::HostInfo => "host"@,
        Scope::AuthWhoami => "auth"@,
        Scope::ContainersList => "containers"@,
        Scope::ContainersGet => "containers"@,
        Scope::ContainersLogs => "containers"@,
        Scope::ContainersStats => "containers"@,
        Scope::ContainersCreate => "containers"@,
        Scope::ContainersStart => "containers"@,
        Scope::ContainersStop => "containers"@,
        Scope::ContainersRestart => "containers"@,
        Scope::ContainersKill => "containers"@,
        Scope::ContainersRemove => "containers"@,
        Scope::ContainersExec => "containers"@,
        Scope::ImagesList => "images"@,
        Scope::ImagesGet => "images"@,
        Scope::ImagesPull => "images"@,
        Scope::ImagesBuild => "images"@,
        Scope::ImagesDelete => "images"@,
        Scope::VolumesList => "volumes"@,
        Scope::VolumesGet => "volumes"@,
        Scope::VolumesCreate => "volumes"@,
        Scope::VolumesDelete => "volumes"@,
        Scope::NetworksList => "networks"@,
        Scope::NetworksGet => "networks"@,
        Scope::NetworksCreate => "networks"@,
        Scope::NetworksDelete => "networks"@,
        Scope::DockerfilesList => "dockerfiles"@,
        Scope::DockerfilesGet => "dockerfiles"@,
        Scope::DockerfilesPut => "dockerfiles"@,
        Scope::DockerfilesDelete => "dockerfiles"@,
        Scope::StacksList => "stacks"@,
        Scope::StacksGet => "stacks"@,
        Scope::StacksLogs => "stacks"@,
        Scope::StacksCreate => "stacks"@,
        Scope::StacksDelete => "stacks"@,
        Scope::StacksRedeploy => "stacks"@,
        Scope::StacksUpdate => "stacks"@,
        Scope::StacksPull => "stacks"@,
        Scope::SecretsList => "secrets"@,
        Scope::SecretsPut => "secrets"@,
        Scope::SecretsDelete => "secrets"@,
        Scope::SecretsReveal => "secrets"@,
    }
}

/// Action half of a scope's wire string (the part after `:`).
pub open spec fn spec_action(s: Scope) -> Seq<char> {
    match s {
        Scope::HostInfo => "info"@,
        Scope::AuthWhoami => "whoami"@,
        Scope::ContainersList => "list"@,
        Scope::ContainersGet => "get"@,
        Scope::ContainersLogs => "logs"@,
        Scope::ContainersStats => "stats"@,
        Scope::ContainersCreate => "create"@,
        Scope::ContainersStart => "start"@,
        Scope::ContainersStop => "stop"@,
        Scope::ContainersRestart => "restart"@,
        Scope::ContainersKill => "kill"@,
        Scope::ContainersRemove => "remove"@,
        Scope::ContainersExec => "exec"@,
        Scope::ImagesList => "list"@,
        Scope::ImagesGet => "get"@,
        Scope::ImagesPull => "pull"@,
        Scope::ImagesBuild => "build"@,
        Scope::ImagesDelete => "delete"@,
        Scope::VolumesList => "list"@,
        Scope::VolumesGet => "get"@,
        Scope::VolumesCreate => "create"@,
        Scope::VolumesDelete => "delete"@,
        Scope::NetworksList => "list"@,
        Scope::NetworksGet => "get"@,
        Scope::NetworksCreate => "create"@,
        Scope::NetworksDelete => "delete"@,
        Scope::DockerfilesList => "list"@,
        Scope::DockerfilesGet => "get"@,
        Scope::DockerfilesPut => "put"@,
        Scope::DockerfilesDelete => "delete"@,
        Scope::StacksList => "list"@,
        Scope::StacksGet => "get"@,
        Scope::StacksLogs => "logs"@,
        Scope::StacksCreate => "create"@,
        Scope::StacksDelete => "delete"@,
        Scope::StacksRedeploy => "redeploy"@,
        Scope::StacksUpdate => "update"@,
        Scope::StacksPull => "pull"@,
        Scope::SecretsList => "list"@,
        Scope::SecretsPut => "put"@,
        Scope::SecretsDelete => "delete"@,
        Scope::SecretsReveal => "reveal"@,
    }
}

/// The wire string `<resource>:<action>` of a scope.
pub open spec fn scope_chars(s: Scope) -> Seq<char> {
    spec_resource(s) + seq![':'] + spec_action(s)
}

/// Every scope, in declaration order.
pub open spec fn spec_all() -> Seq<Scope> {
    seq![
        Scope::HostInfo,
        Scope::AuthWhoami,
        Scope::ContainersList,
        Scope::ContainersGet,
        Scope::ContainersLogs,
        Scope::ContainersStats,
        Scope::ContainersCreate,
        Scope::ContainersStart,
        Scope::ContainersStop,
        Scope::ContainersRestart,
        Scope::ContainersKill,
        Scope::ContainersRemove,
        Scope::ContainersExec,
        Scope::ImagesList,
        Scope::ImagesGet,
        Scope::ImagesPull,
        Scope::ImagesBuild,
        Scope::ImagesDelete,
        Scope::VolumesList,
        Scope::VolumesGet,
        Scope::VolumesCreate,
        Scope::VolumesDelete,
        Scope::NetworksList,
        Scope::NetworksGet,
        Scope::NetworksCreate,
        Scope::NetworksDelete,
        Scope::DockerfilesList,
        Scope::DockerfilesGet,
        Scope::DockerfilesPut,
        Scope::DockerfilesDelete,
        Scope::StacksList,
        Scope::StacksGet,
        Scope::StacksLogs,
        Scope::StacksCreate,
        Scope::StacksDelete,
        Scope::StacksRedeploy,
        Scope::StacksUpdate,
        Scope::StacksPull,
        Scope::SecretsList,
        Scope::SecretsPut,
        Scope::SecretsDelete,
        Scope::SecretsReveal,
    ]
}


/// True when `cs` holds no `:` character.
pub open spec fn colon_free(cs: Seq<char>) -> bool {
    forall|i: int| 0 <= i < cs.len() ==> cs[i] != ':'
}

/// The contents of every resource and action literal.
proof fn lemma_scope_literals()
    ensures
        "auth"@ == seq!['a', 'u', 't', 'h'],
        "containers"@ == seq!['c', 'o', 'n', 't', 'a', 'i', 'n', 'e', 'r', 's'],
        "dockerfiles"@ == seq!['d', 'o', 'c', 'k', 'e', 'r', 'f', 'i', 'l', 'e', 's'],
        "host"@ == seq!['h', 'o', 's', 't'],
        "images"@ == seq!['i', 'm', 'a', 'g', 'e', 's'],
        "networks"@ == seq!['n', 'e', 't', 'w', 'o', 'r', 'k', 's'],
        "secrets"@ == seq!['s', 'e', 'c', 'r', 'e', 't', 's'],
        "stacks"@ == seq!['s', 't', 'a', 'c', 'k', 's'],
        "volumes"@ == seq!['v', 'o', 'l', 'u', 'm', 'e', 's'],
        "build"@ == seq!['b', 'u', 'i', 'l', 'd'],
        "create"@ == seq!['c', 'r', 'e', 'a', 't', 'e'],
        "delete"@ == seq!['d', 'e', 'l', 'e', 't', 'e'],
        "exec"@ == seq!['e', 'x', 'e', 'c'],
        "get"@ == seq!['g', 'e', 't'],
        "info"@ == seq!['i', 'n', 'f', 'o'],
        "kill"@ == seq!['k', 'i', 'l', 'l'],
        "list"@ == seq!['l', 'i', 's', 't'],
        "logs"@ == seq!['l', 'o', 'g', 's'],
        "pull"@ == seq!['p', 'u', 'l', 'l'],
        "put"@ == seq!['p', 'u', 't'],
        "redeploy"@ == seq!['r', 'e', 'd', 'e', 'p', 'l', 'o', 'y'],
        "remove"@ == seq!['r', 'e', 'm', 'o', 'v', 'e'],
        "restart"@ == seq!['r', 'e', 's', 't', 'a', 'r', 't'],
        "reveal"@ == seq!['r', 'e', 'v', 'e', 'a', 'l'],
        "start"@ == seq!['s', 't', 'a', 'r', 't'],
        "stats"@ == seq!['s', 't', 'a', 't', 's'],
        "stop"@ == seq!['s', 't', 'o', 'p'],
        "update"@ == seq!['u', 'p', 'd', 'a', 't', 'e'],
        "whoami"@ == seq!['w', 'h', 'o', 'a', 'm', 'i'],
{
    reveal_strlit("auth");
    reveal_strlit("containers");
    reveal_strlit("dockerfiles");
    reveal_strlit("host");
    reveal_strlit("images");
    reveal_strlit("networks");
    reveal_strlit("secrets");
    reveal_strlit("stacks");
    reveal_strlit("volumes");
    reveal_strlit("build");
    reveal_strlit("create");
    reveal_strlit("delete");
    reveal_strlit("exec");
    reveal_strlit("get");
    reveal_strlit("info");
    reveal_strlit("kill");
    reveal_strlit("list");
    reveal_strlit("logs");
    reveal_strlit("pull");
    reveal_strlit("put");
    reveal_strlit("redeploy");
    reveal_strlit("remove");
    reveal_strlit("restart");
    reveal_strlit("reveal");
    reveal_strlit("start");
    reveal_strlit("stats");
    reveal_strlit("stop");
    reveal_strlit("update");
    reveal_strlit("whoami");
}

/// Both halves of every scope's wire string are non-empty and free of `:`.
pub proof fn lemma_scope_parts_well_formed(s: Scope)
    ensures
        spec_resource(s).len() > 0,
        spec_action(s).len() > 0,
        colon_free(spec_resource(s)),
        colon_free(spec_action(s)),
{
    lemma_scope_literals();
}

/// Distinct scopes differ in their resource or in their action.
proof fn lemma_parts_determine_scope(a: Scope, b: Scope)
    requires
        spec_resource(a) == spec_resource(b),
        spec_action(a) == spec_action(b),
    ensures
        a == b,
{
    lemma_scope_literals();
}

/// Splitting `r + ":" + a` at its first colon recovers `r` and `a`.
pub proof fn lemma_split_at_colon(r1: Seq<char>, a1: Seq<char>, r2: Seq<char>, a2: Seq<char>)
    requires
        colon_free(r1),
        colon_free(r2),
        r1 + seq![':'] + a1 == r2 + seq![':'] + a2,
    ensures
        r1 == r2,
        a1 == a2,
{
    let l = r1 + seq![':'] + a1;
    let m = r2 + seq![':'] + a2;
    if r1.len() < r2.len() {
        assert(l[r1.len() as int] == ':');
        assert(m[r1.len() as int] == r2[r1.len() as int]);
    } else if r2.len() < r1.len() {
        assert(m[r2.len() as int] == ':');
        assert(l[r2.len() as int] == r1[r2.len() as int]);
    }
    assert(r1.len() == r2.len());
    assert(r1 =~= l.subrange(0, r1.len() as int));
    assert(r2 =~= m.subrange(0, r2.len() as int));
    assert(a1 =~= l.subrange(r1.len() as int + 1, l.len() as int));
    assert(a2 =~= m.subrange(r2.len() as int + 1, m.len() as int));
}

/// No two scopes share a wire string.
pub proof fn lemma_scope_chars_injective(a: Scope, b: Scope)
    requires
        scope_chars(a) == scope_chars(b),
    ensures
        a == b,
{
    lemma_scope_parts_well_formed(a);
    lemma_scope_parts_well_formed(b);
    lemma_split_at_colon(spec_resource(a), spec_action(a), spec_resource(b), spec_action(b));
    lemma_parts_determine_scope(a, b);
}

impl Scope {
    /// Every scope, in declaration order. Used for validation, listing,
    /// and completions; not for runtime checks.
    pub const ALL: [Scope; 42] = [
        Scope::HostInfo,
        Scope::AuthWhoami,
        Scope::ContainersList,
        Scope::ContainersGet,
        Scope::ContainersLogs,
        Scope::ContainersStats,
        Scope::ContainersCreate,
        Scope::ContainersStart,
        Scope::ContainersStop,
        Scope::ContainersRestart,
        Scope::ContainersKill,
        Scope::ContainersRemove,
        Scope::ContainersExec,
        Scope::ImagesList,
        Scope::ImagesGet,
        Scope::ImagesPull,
        Scope::ImagesBuild,
        Scope::ImagesDelete,
        Scope::VolumesList,
        Scope::VolumesGet,
        Scope::VolumesCreate,
        Scope::VolumesDelete,
        Scope::NetworksList,
        Scope::NetworksGet,
        Scope::NetworksCreate,
        Scope::NetworksDelete,
        Scope::DockerfilesList,
        Scope::DockerfilesGet,
        Scope::DockerfilesPut,
        Scope::DockerfilesDelete,
        Scope::StacksList,
        Scope::StacksGet,
        Scope::StacksLogs,
        Scope::StacksCreate,
        Scope::StacksDelete,
        Scope::StacksRedeploy,
        Scope::StacksUpdate,
        Scope::StacksPull,
        Scope::SecretsList,
        Scope::SecretsPut,
        Scope::SecretsDelete,
        Scope::SecretsReveal,
    ];

    /// Every scope, in declaration order, as a vector.
    pub fn all() -> (res: Vec<Scope>)
        ensures
            res@ == spec_all(),
    {
        let arr = Self::ALL;
        let res = vstd::slice::slice_to_vec(arr.as_slice());
        assert(res@ =~= spec_all());
        res
    }
}

/// Every scope occurs in the canonical list.
pub proof fn lemma_all_complete(s: Scope)
    ensures
        spec_all().contains(s),
{
    match s {
        Scope::HostInfo => assert(spec_all()[0] == s),
        Scope::AuthWhoami => assert(spec_all()[1] == s),
        Scope::ContainersList => assert(spec_all()[2] == s),
        Scope::ContainersGet => assert(spec_all()[3] == s),
        Scope::ContainersLogs => assert(spec_all()[4] == s),
        Scope::ContainersStats => assert(spec_all()[5] == s),
        Scope::ContainersCreate => assert(spec_all()[6] == s),
        Scope::ContainersStart => assert(spec_all()[7] == s),
        Scope::ContainersStop => assert(spec_all()[8] == s),
        Scope::ContainersRestart => assert(spec_all()[9] == s),
        Scope::ContainersKill => assert(spec_all()[10] == s),
        Scope::ContainersRemove => assert(spec_all()[11] == s),
        Scope::ContainersExec => assert(spec_all()[12] == s),
        Scope::ImagesList => assert(spec_all()[13] == s),
        Scope::ImagesGet => assert(spec_all()[14] == s),
        Scope::ImagesPull => assert(spec_all()[15] == s),
        Scope::ImagesBuild => assert(spec_all()[16] == s),
        Scope::ImagesDelete => assert(spec_all()[17] == s),
        Scope::VolumesList => assert(spec_all()[18] == s),
        Scope::VolumesGet => assert(spec_all()[19] == s),
        Scope::VolumesCreate => assert(spec_all()[20] == s),
        Scope::VolumesDelete => assert(spec_all()[21] == s),
        Scope::NetworksList => assert(spec_all()[22] == s),
        Scope::NetworksGet => assert(spec_all()[23] == s),
        Scope::NetworksCreate => assert(spec_all()[24] == s),
        Scope::NetworksDelete => assert(spec_all()[25] == s),
        Scope::DockerfilesList => assert(spec_all()[26] == s),
        Scope::DockerfilesGet => assert(spec_all()[27] == s),
        Scope::DockerfilesPut => assert(spec_all()[28] == s),
        Scope::DockerfilesDelete => assert(spec_all()[29] == s),
        Scope::StacksList => assert(spec_all()[30] == s),
        Scope::StacksGet => assert(spec_all()[31] == s),
        Scope::StacksLogs => assert(spec_all()[32] == s),
        Scope::StacksCreate => assert(spec_all()[33] == s),
        Scope::StacksDelete => assert(spec_all()[34] == s),
        Scope::StacksRedeploy => assert(spec_all()[35] == s),
        Scope::StacksUpdate => assert(spec_all()[36] == s),
        Scope::StacksPull => assert(spec_all()[37] == s),
        Scope::SecretsList => assert(spec_all()[38] == s),
        Scope::SecretsPut => assert(spec_all()[39] == s),
        Scope::SecretsDelete => assert(spec_all()[40] == s),
        Scope::SecretsReveal => assert(spec_all()[41] == s),
    }
}

/// Error for a scope string that names no known scope. Holds the
/// offending text.
#[derive(Debug)]
pub struct ParseScopeError(pub String);

impl ParseScopeError {
    /// Human-readable message: "unknown scope `<text>`".
    pub fn message(&self) -> (res: String)
        ensures
            res@ == "unknown scope `"@ + self.0@ + "`"@,
    {
        let mut out = String::from_str("unknown scope `");
        out.append(self.0.as_str());
        out.append("`");
        out
    }
}

/// `t` is the wire string of some scope.
pub open spec fn is_scope_string(t: Seq<char>) -> bool {
    exists|s: Scope| scope_chars(s) == t
}

impl Scope {
    /// Parses a wire string back into its scope. Fails on anything that
    /// is not exactly one scope's `<resource>:<action>` string.
    pub fn parse(s: &str) -> (res: Result<Scope, ParseScopeError>)
        ensures
            res is Ok <==> is_scope_string(s@),
            res matches Ok(sc) ==> scope_chars(sc) == s@,
            res matches Err(e) ==> e.0@ == s@,
    {
        let all = Scope::all();
        let mut i: usize = 0;
        while i < all.len()
            invariant
                all@ == spec_all(),
                i <= all@.len(),
                forall|j: int| 0 <= j < i ==> scope_chars(#[trigger] all@[j]) != s@,
            decreases all@.len() - i,
        {
            let scope = all[i];
            if crate::text::str_eq(scope.as_str(), s) {
                return Ok(scope);
            }
            i = i + 1;
        }
        proof {
            assert forall|x: Scope| scope_chars(x) != s@ by {
                lemma_all_complete(x);
                let k = choose|k: int| 0 <= k < spec_all().len() && spec_all()[k] == x;
                assert(scope_chars(all@[k]) != s@);
            }
        }
        Err(ParseScopeError(String::from_str(s)))
    }
}

impl core::str::FromStr for Scope {
    type Err = ParseScopeError;

    fn from_str(s: &str) -> (res: Result<Self, Self::Err>)
        ensures
            res is Ok <==> is_scope_string(s@),
            res matches Ok(sc) ==> scope_chars(sc) == s@,
            res matches Err(e) ==> e.0@ == s@,
    {
        Scope::parse(s)
    }
}

/// Every action is at least three characters long.
pub proof fn lemma_action_long(s: Scope)
    ensures
        spec_action(s).len() >= 3,
{
    lemma_scope_literals();
}

/// No scope's wire string contains ASCII whitespace or a comma.
pub proof fn lemma_scope_chars_no_ws(s: Scope)
    ensures
        scope_chars(s).len() > 0,
        forall|i: int| 0 <= i < scope_chars(s).len() ==> !crate::text::is_ascii_ws(#[trigger] scope_chars(s)[i])
            && scope_chars(s)[i] != ',',
{
    lemma_scope_literals();
    let r = spec_resource(s);
    let a = spec_action(s);
    assert forall|i: int| 0 <= i < scope_chars(s).len() implies !crate::text::is_ascii_ws(
        #[trigger] scope_chars(s)[i],
    ) && scope_chars(s)[i] != ',' by {
        if i < r.len() {
            assert(scope_chars(s)[i] == r[i]);
        } else if i > r.len() {
            assert(scope_chars(s)[i] == a[i - r.len() - 1]);
        }
    }
}

} // verus!
