//! Compose `secrets:` handling. Top-level declarations and per-service
//! references become `SecretSpec` and `ServiceSecretRef` entries.

use vstd::prelude::*;
use vstd::string::StringExecFns;

use super::spec::{ParseError, SecretSpec, ServiceSecretRef};
use super::wire::{SecretYaml, ServiceSecretYaml};
use crate::sort::{lemma_map_values_multiset, reversed, sort_by_key, sorted_by_key, Keyed};
use crate::text::to_chars;

verus! {

impl Keyed for SecretSpec {
    open spec fn key(&self) -> Seq<char> {
        self.name@
    }

    fn key_chars(&self) -> (res: Vec<char>) {
        to_chars(self.name.as_str())
    }
}

/// A declared secret as (name, lookup).
pub open spec fn secret_view(s: SecretSpec) -> (Seq<char>, Seq<char>) {
    (s.name@, s.lookup@)
}

/// Declared secrets as (name, lookup) pairs.
pub open spec fn secret_views(v: Seq<SecretSpec>) -> Seq<(Seq<char>, Seq<char>)> {
    v.map_values(|s: SecretSpec| secret_view(s))
}

/// One top-level secret declaration: only `external: true` sources are
/// accepted; the lookup key is `name:` when given, else the compose key.
pub open spec fn spec_secret(name: Seq<char>, d: SecretYaml) -> Result<(Seq<char>, Seq<char>), Seq<char>> {
    if d.file is Some {
        Err("secret `"@ + name + "`: `file:` source not supported by nub. Run `nub secret put "@ + name
            + "` and use `external: true` to reference it."@)
    } else if d.environment is Some {
        Err("secret `"@ + name + "`: `environment:` source not supported by nub. Run `nub secret put "@
            + name + "` and use `external: true`."@)
    } else if !d.external {
        Err("secret `"@ + name + "`: must declare `external: true` (nub-managed sources only)."@)
    } else {
        Ok(
            (
                name,
                match d.name {
                    Some(n) => n@,
                    None => name,
                },
            ),
        )
    }
}

/// All top-level declarations, in order; the first bad one is the error.
pub open spec fn spec_secrets(raw: Seq<(String, SecretYaml)>) -> Result<Seq<(Seq<char>, Seq<char>)>, Seq<char>>
    decreases raw.len(),
{
    if raw.len() == 0 {
        Ok(seq![])
    } else {
        match spec_secrets(raw.drop_last()) {
            Err(m) => Err(m),
            Ok(done) => match spec_secret(raw.last().0@, raw.last().1) {
                Err(m) => Err(m),
                Ok(s) => Ok(done.push(s)),
            },
        }
    }
}

/// Converts one declaration.
fn transform_one(name: String, decl: SecretYaml) -> (res: Result<SecretSpec, ParseError>)
    ensures
        match spec_secret(name@, decl) {
            Ok(s) => res matches Ok(t) && secret_view(t) == s,
            Err(m) => res matches Err(e) && e.0@ == m,
        },
{
    if decl.file.is_some() {
        let mut m = String::from_str("secret `");
        m.append(name.as_str());
        m.append("`: `file:` source not supported by nub. Run `nub secret put ");
        m.append(name.as_str());
        m.append("` and use `external: true` to reference it.");
        return Err(ParseError(m));
    }
    if decl.environment.is_some() {
        let mut m = String::from_str("secret `");
        m.append(name.as_str());
        m.append("`: `environment:` source not supported by nub. Run `nub secret put ");
        m.append(name.as_str());
        m.append("` and use `external: true`.");
        return Err(ParseError(m));
    }
    if !decl.external {
        let mut m = String::from_str("secret `");
        m.append(name.as_str());
        m.append("`: must declare `external: true` (nub-managed sources only).");
        return Err(ParseError(m));
    }
    let lookup = match decl.name {
        Some(n) => n,
        None => name.clone(),
    };
    Ok(SecretSpec { name, lookup })
}

/// Converts the top-level `secrets:` map: every declaration must be
/// `external: true`. The result is sorted by name.
pub fn transform_top_level(raw: Vec<(String, SecretYaml)>) -> (res: Result<Vec<SecretSpec>, ParseError>)
    ensures
        match spec_secrets(raw@) {
            Ok(list) => res matches Ok(v) && secret_views(v@).to_multiset() == list.to_multiset()
                && sorted_by_key(v@),
            Err(m) => res matches Err(e) && e.0@ == m,
        },
{
    let ghost src = raw@;
    let mut out: Vec<SecretSpec> = Vec::new();
    let mut i: usize = 0;
    let n = raw.len();
    let mut items = reversed(raw);
    assert(src.subrange(0, 0) =~= Seq::<(String, SecretYaml)>::empty());
    assert(secret_views(out@) =~= Seq::<(Seq<char>, Seq<char>)>::empty());
    // `items` holds the entries back to front; pop them front to back.
    while items.len() > 0
        invariant
            i <= n,
            n == src.len(),
            src == raw@,
            items@.len() == n - i,
            forall|k: int| 0 <= k < items@.len() ==> #[trigger] items@[k] == src[n - 1 - k],
            spec_secrets(src.subrange(0, i as int)) == Ok::<Seq<(Seq<char>, Seq<char>)>, Seq<char>>(
                secret_views(out@),
            ),
        decreases items@.len(),
    {
        let ghost before = items@;
        let (name, decl) = items.pop().unwrap();
        assert(before[before.len() - 1] == src[i as int]);
        let ghost upto = src.subrange(0, i + 1);
        assert(upto.drop_last() =~= src.subrange(0, i as int));
        assert(upto.last() == src[i as int]);
        match transform_one(name, decl) {
            Ok(s) => {
                let ghost ob = out@;
                out.push(s);
                assert(secret_views(out@) =~= secret_views(ob).push(secret_view(s)));
            },
            Err(e) => {
                proof {
                    assert(spec_secrets(upto) == Err::<Seq<(Seq<char>, Seq<char>)>, Seq<char>>(e.0@));
                    lemma_secrets_err_sticks(src, i as int + 1);
                    assert(spec_secrets(src) == Err::<Seq<(Seq<char>, Seq<char>)>, Seq<char>>(e.0@));

                }
                return Err(e);
            },
        }
        i = i + 1;
        assert forall|k: int| 0 <= k < items@.len() implies #[trigger] items@[k] == src[n - 1 - k] by {
            assert(items@[k] == before[k]);
        }
    }
    assert(src.subrange(0, n as int) =~= src);
    let ghost unsorted = out@;
    let sorted = sort_by_key(out);
    proof {
        lemma_map_values_multiset(sorted@, unsorted, |s: SecretSpec| secret_view(s));
    }
    Ok(sorted)
}

/// Once a prefix of the declarations fails, every longer prefix fails with
/// the same error.
proof fn lemma_secrets_err_sticks(src: Seq<(String, SecretYaml)>, k: int)
    requires
        0 <= k <= src.len(),
        spec_secrets(src.subrange(0, k)) is Err,
    ensures
        spec_secrets(src) == spec_secrets(src.subrange(0, k)),
    decreases src.len() - k,
{
    if k < src.len() {
        let up = src.subrange(0, k + 1);
        assert(up.drop_last() =~= src.subrange(0, k));
        lemma_secrets_err_sticks(src, k + 1);
    } else {
        assert(src.subrange(0, k) =~= src);
    }
}

/// A relative target lives under `/run/secrets/`; an absolute one is
/// taken as is.
pub open spec fn spec_secret_target(t: Seq<char>) -> Seq<char> {
    if t.len() > 0 && t[0] == '/' {
        t
    } else {
        "/run/secrets/"@ + t
    }
}

/// A reference as (source, target).
pub open spec fn spec_secret_ref(r: ServiceSecretYaml) -> (Seq<char>, Seq<char>) {
    match r {
        ServiceSecretYaml::Short(name) => (name@, "/run/secrets/"@ + name@),
        ServiceSecretYaml::Long { source, target } => (
            source@,
            match target {
                Some(t) => spec_secret_target(t@),
                None => "/run/secrets/"@ + source@,
            },
        ),
    }
}

/// A service's secret references, in order; the first one naming an
/// undeclared secret is the error.
pub open spec fn spec_secret_refs(svc: Seq<char>, refs: Seq<ServiceSecretYaml>, declared: Set<Seq<char>>) -> Result<
    Seq<(Seq<char>, Seq<char>)>,
    Seq<char>,
>
    decreases refs.len(),
{
    if refs.len() == 0 {
        Ok(seq![])
    } else {
        match spec_secret_refs(svc, refs.drop_last(), declared) {
            Err(m) => Err(m),
            Ok(done) => {
                let r = spec_secret_ref(refs.last());
                if declared.contains(r.0) {
                    Ok(done.push(r))
                } else {
                    Err("service `"@ + svc + "` references secret `"@ + r.0
                        + "` which isn't declared at top level"@)
                }
            },
        }
    }
}

/// References as (source, target) pairs.
pub open spec fn secret_ref_views(v: Seq<ServiceSecretRef>) -> Seq<(Seq<char>, Seq<char>)> {
    v.map_values(|r: ServiceSecretRef| (r.source@, r.target@))
}

/// Declared names as character sequences.
pub open spec fn name_views(v: Seq<String>) -> Seq<Seq<char>> {
    v.map_values(|s: String| s@)
}

/// Resolves the container-side target of a `target:` value.
pub fn resolve_target(t: String) -> (res: String)
    ensures
        res@ == spec_secret_target(t@),
{
    proof {
        reveal_strlit("/run/secrets/");
    }
    let c = to_chars(t.as_str());
    if c.len() > 0 && c[0] == '/' {
        t
    } else {
        default_target(t.as_str())
    }
}

/// The default target of a secret: `/run/secrets/<name>`.
pub fn default_target(name: &str) -> (res: String)
    ensures
        res@ == "/run/secrets/"@ + name@,
{
    let mut m = String::from_str("/run/secrets/");
    m.append(name);
    m
}

/// A reference as (source, target).
pub fn resolve_ref(r: ServiceSecretYaml) -> (res: (String, String))
    ensures
        (res.0@, res.1@) == spec_secret_ref(r),
{
    match r {
        ServiceSecretYaml::Short(name) => {
            let target = default_target(name.as_str());
            (name, target)
        },
        ServiceSecretYaml::Long { source, target } => {
            let t = match target {
                Some(t) => resolve_target(t),
                None => default_target(source.as_str()),
            };
            (source, t)
        },
    }
}

/// Whether `name` is in `declared`.
pub fn contains_name(declared: &Vec<String>, name: &String) -> (res: bool)
    ensures
        res == name_views(declared@).to_set().contains(name@),
{
    let mut i: usize = 0;
    while i < declared.len()
        invariant
            i <= declared@.len(),
            forall|k: int| 0 <= k < i ==> declared@[k]@ != name@,
        decreases declared@.len() - i,
    {
        if declared[i] == *name {
            assert(name_views(declared@)[i as int] == name@);
            return true;
        }
        i = i + 1;
    }
    proof {
        if name_views(declared@).contains(name@) {
            let k = choose|k: int| 0 <= k < name_views(declared@).len() && name_views(declared@)[k] == name@;
            assert(declared@[k]@ == name@);
        }
    }
    false
}

/// Converts a service's `secrets:` list against the declared names.
pub fn transform_service_refs(svc: &str, refs: Vec<ServiceSecretYaml>, declared: &Vec<String>) -> (res: Result<
    Vec<ServiceSecretRef>,
    ParseError,
>)
    ensures
        match spec_secret_refs(svc@, refs@, name_views(declared@).to_set()) {
            Ok(list) => res matches Ok(v) && secret_ref_views(v@) == list,
            Err(m) => res matches Err(e) && e.0@ == m,
        },
{
    let ghost src = refs@;
    let ghost dv = name_views(declared@).to_set();
    let n = refs.len();
    let mut items = reversed(refs);
    let mut out: Vec<ServiceSecretRef> = Vec::new();
    let mut i: usize = 0;
    assert(src.subrange(0, 0) =~= Seq::<ServiceSecretYaml>::empty());
    assert(secret_ref_views(out@) =~= Seq::<(Seq<char>, Seq<char>)>::empty());
    while items.len() > 0
        invariant
            i <= n,
            n == src.len(),
            dv == name_views(declared@).to_set(),
            src == refs@,
            items@.len() == n - i,
            forall|k: int| 0 <= k < items@.len() ==> #[trigger] items@[k] == src[n - 1 - k],
            spec_secret_refs(svc@, src.subrange(0, i as int), dv) == Ok::<
                Seq<(Seq<char>, Seq<char>)>,
                Seq<char>,
            >(secret_ref_views(out@)),
        decreases items@.len(),
    {
        let ghost before = items@;
        let r = items.pop().unwrap();
        assert(before[before.len() - 1] == src[i as int]);
        let ghost upto = src.subrange(0, i + 1);
        assert(upto.drop_last() =~= src.subrange(0, i as int));
        assert(upto.last() == src[i as int]);
        let (source, target) = resolve_ref(r);
        if !contains_name(declared, &source) {
            let mut m = String::from_str("service `");
            m.append(svc);
            m.append("` references secret `");
            m.append(source.as_str());
            m.append("` which isn't declared at top level");
            proof {
                assert(spec_secret_refs(svc@, upto, dv) == Err::<Seq<(Seq<char>, Seq<char>)>, Seq<char>>(m@));
                lemma_secret_refs_err_sticks(svc@, src, dv, i as int + 1);
                assert(src.subrange(0, n as int) =~= src);
            }
            return Err(ParseError(m));
        }
        let ghost ob = out@;
        out.push(ServiceSecretRef { source, target });
        assert(secret_ref_views(out@) =~= secret_ref_views(ob).push(spec_secret_ref(src[i as int])));
        i = i + 1;
        assert forall|k: int| 0 <= k < items@.len() implies #[trigger] items@[k] == src[n - 1 - k] by {
            assert(items@[k] == before[k]);
        }
    }
    assert(src.subrange(0, n as int) =~= src);
    Ok(out)
}

/// Once a prefix of the references fails, every longer prefix fails with
/// the same error.
proof fn lemma_secret_refs_err_sticks(svc: Seq<char>, src: Seq<ServiceSecretYaml>, dv: Set<Seq<char>>, k: int)
    requires
        0 <= k <= src.len(),
        spec_secret_refs(svc, src.subrange(0, k), dv) is Err,
    ensures
        spec_secret_refs(svc, src, dv) == spec_secret_refs(svc, src.subrange(0, k), dv),
    decreases src.len() - k,
{
    if k < src.len() {
        let up = src.subrange(0, k + 1);
        assert(up.drop_last() =~= src.subrange(0, k));
        lemma_secret_refs_err_sticks(svc, src, dv, k + 1);
    } else {
        assert(src.subrange(0, k) =~= src);
    }
}

} // verus!
