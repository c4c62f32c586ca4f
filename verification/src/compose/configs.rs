//! Compose `configs:` handling. Top-level declarations and per-service
//! references become `ConfigSpec` and `ServiceConfigRef` entries. Only an
//! inline `content:` source is supported; `file:`, `external:` and
//! `environment:` are refused with errors that point at the inline form.

use vstd::prelude::*;
use vstd::string::StringExecFns;

use super::secrets::{contains_name, name_views};
use super::spec::{ConfigSpec, ParseError, ServiceConfigRef};
use super::wire::{ConfigYaml, ServiceConfigYaml};
use crate::sort::{lemma_map_values_multiset, reversed, sort_by_key, sorted_by_key, Keyed};
use crate::text::to_chars;

verus! {

impl Keyed for ConfigSpec {
    open spec fn key(&self) -> Seq<char> {
        self.name@
    }

    fn key_chars(&self) -> (res: Vec<char>) {
        to_chars(self.name.as_str())
    }
}

/// A declared config as (name, content).
pub open spec fn config_view(s: ConfigSpec) -> (Seq<char>, Seq<char>) {
    (s.name@, s.content@)
}

/// Declared configs as (name, content) pairs.
pub open spec fn config_views(v: Seq<ConfigSpec>) -> Seq<(Seq<char>, Seq<char>)> {
    v.map_values(|s: ConfigSpec| config_view(s))
}

/// One top-level config declaration: only an inline `content:` source is
/// accepted.
pub open spec fn spec_config(name: Seq<char>, d: ConfigYaml) -> Result<(Seq<char>, Seq<char>), Seq<char>> {
    if d.file is Some {
        Err("config `"@ + name
            + "`: `file:` source not supported by nub. Inline the value with `content:` instead."@)
    } else if d.external {
        Err("config `"@ + name
            + "`: `external: true` not supported by nub. Inline the value with `content:` instead."@)
    } else if d.environment is Some {
        Err("config `"@ + name
            + "`: `environment:` source not supported by nub. Inline the value with `content:` instead."@)
    } else {
        match d.content {
            Some(c) => Ok((name, c@)),
            None => Err("config `"@ + name
                + "`: must declare a `content:` source (the only supported form)."@),
        }
    }
}

/// All top-level declarations, in order; the first bad one is the error.
pub open spec fn spec_configs(raw: Seq<(String, ConfigYaml)>) -> Result<Seq<(Seq<char>, Seq<char>)>, Seq<char>>
    decreases raw.len(),
{
    if raw.len() == 0 {
        Ok(seq![])
    } else {
        match spec_configs(raw.drop_last()) {
            Err(m) => Err(m),
            Ok(done) => match spec_config(raw.last().0@, raw.last().1) {
                Err(m) => Err(m),
                Ok(s) => Ok(done.push(s)),
            },
        }
    }
}

/// Builds `config `<name>`<rest>`.
fn config_error(name: &str, rest: &str) -> (res: ParseError)
    ensures
        res.0@ == "config `"@ + name@ + rest@,
{
    let mut m = String::from_str("config `");
    m.append(name);
    m.append(rest);
    ParseError(m)
}

/// Converts one declaration.
fn transform_one(name: String, decl: ConfigYaml) -> (res: Result<ConfigSpec, ParseError>)
    ensures
        match spec_config(name@, decl) {
            Ok(s) => res matches Ok(t) && config_view(t) == s,
            Err(m) => res matches Err(e) && e.0@ == m,
        },
{
    if decl.file.is_some() {
        return Err(
            config_error(
                name.as_str(),
                "`: `file:` source not supported by nub. Inline the value with `content:` instead.",
            ),
        );
    }
    if decl.external {
        return Err(
            config_error(
                name.as_str(),
                "`: `external: true` not supported by nub. Inline the value with `content:` instead.",
            ),
        );
    }
    if decl.environment.is_some() {
        return Err(
            config_error(
                name.as_str(),
                "`: `environment:` source not supported by nub. Inline the value with `content:` instead.",
            ),
        );
    }
    match decl.content {
        Some(content) => Ok(ConfigSpec { name, content }),
        None => Err(
            config_error(name.as_str(), "`: must declare a `content:` source (the only supported form)."),
        ),
    }
}

/// Converts the top-level `configs:` map: every declaration must carry
/// inline `content:`. The result is sorted by name.
pub fn transform_top_level(raw: Vec<(String, ConfigYaml)>) -> (res: Result<Vec<ConfigSpec>, ParseError>)
    ensures
        match spec_configs(raw@) {
            Ok(list) => res matches Ok(v) && config_views(v@).to_multiset() == list.to_multiset()
                && sorted_by_key(v@),
            Err(m) => res matches Err(e) && e.0@ == m,
        },
{
    let ghost src = raw@;
    let mut out: Vec<ConfigSpec> = Vec::new();
    let mut i: usize = 0;
    let n = raw.len();
    let mut items = reversed(raw);
    assert(src.subrange(0, 0) =~= Seq::<(String, ConfigYaml)>::empty());
    assert(config_views(out@) =~= Seq::<(Seq<char>, Seq<char>)>::empty());
    // `items` holds the entries back to front; pop them front to back.
    while items.len() > 0
        invariant
            i <= n,
            n == src.len(),
            src == raw@,
            items@.len() == n - i,
            forall|k: int| 0 <= k < items@.len() ==> #[trigger] items@[k] == src[n - 1 - k],
            spec_configs(src.subrange(0, i as int)) == Ok::<Seq<(Seq<char>, Seq<char>)>, Seq<char>>(
                config_views(out@),
            ),
        decreases items@.len(),
    {
        let ghost before = items@;
        let (name, decl) = items.pop().unwrap();
        assert(before[before.len() - 1] == src[i as int]);
        let ghost upto = src.subrange(0, i + 1);
        assert(upto.drop_last() =~= src.subrange(0, i as int));
        assert(upto.last() == src[i as int]);
        match transform_one(name, decl) {
            Ok(s) => {
                let ghost ob = out@;
                out.push(s);
                assert(config_views(out@) =~= config_views(ob).push(config_view(s)));
            },
            Err(e) => {
                proof {
                    assert(spec_configs(upto) == Err::<Seq<(Seq<char>, Seq<char>)>, Seq<char>>(e.0@));
                    lemma_configs_err_sticks(src, i as int + 1);
                    assert(spec_configs(src) == Err::<Seq<(Seq<char>, Seq<char>)>, Seq<char>>(e.0@));

                }
                return Err(e);
            },
        }
        i = i + 1;
        assert forall|k: int| 0 <= k < items@.len() implies #[trigger] items@[k] == src[n - 1 - k] by {
            assert(items@[k] == before[k]);
        }
    }
    assert(src.subrange(0, n as int) =~= src);
    let ghost unsorted = out@;
    let sorted = sort_by_key(out);
    proof {
        lemma_map_values_multiset(sorted@, unsorted, |s: ConfigSpec| config_view(s));
    }
    Ok(sorted)
}

/// Once a prefix of the declarations fails, every longer prefix fails with
/// the same error.
proof fn lemma_configs_err_sticks(src: Seq<(String, ConfigYaml)>, k: int)
    requires
        0 <= k <= src.len(),
        spec_configs(src.subrange(0, k)) is Err,
    ensures
        spec_configs(src) == spec_configs(src.subrange(0, k)),
    decreases src.len() - k,
{
    if k < src.len() {
        let up = src.subrange(0, k + 1);
        assert(up.drop_last() =~= src.subrange(0, k));
        lemma_configs_err_sticks(src, k + 1);
    } else {
        assert(src.subrange(0, k) =~= src);
    }
}

/// A relative target lives at the container's root; an absolute one is
/// taken as is.
pub open spec fn spec_config_target(t: Seq<char>) -> Seq<char> {
    if t.len() > 0 && t[0] == '/' {
        t
    } else {
        seq!['/'] + t
    }
}

/// A reference as (source, target).
pub open spec fn spec_config_ref(r: ServiceConfigYaml) -> (Seq<char>, Seq<char>) {
    match r {
        ServiceConfigYaml::Short(name) => (name@, seq!['/'] + name@),
        ServiceConfigYaml::Long { source, target } => (
            source@,
            match target {
                Some(t) => spec_config_target(t@),
                None => seq!['/'] + source@,
            },
        ),
    }
}

/// A service's config references, in order; the first one naming an
/// undeclared config is the error.
pub open spec fn spec_config_refs(svc: Seq<char>, refs: Seq<ServiceConfigYaml>, declared: Set<Seq<char>>) -> Result<
    Seq<(Seq<char>, Seq<char>)>,
    Seq<char>,
>
    decreases refs.len(),
{
    if refs.len() == 0 {
        Ok(seq![])
    } else {
        match spec_config_refs(svc, refs.drop_last(), declared) {
            Err(m) => Err(m),
            Ok(done) => {
                let r = spec_config_ref(refs.last());
                if declared.contains(r.0) {
                    Ok(done.push(r))
                } else {
                    Err("service `"@ + svc + "` references config `"@ + r.0
                        + "` which isn't declared at top level"@)
                }
            },
        }
    }
}

/// References as (source, target) pairs.
pub open spec fn config_ref_views(v: Seq<ServiceConfigRef>) -> Seq<(Seq<char>, Seq<char>)> {
    v.map_values(|r: ServiceConfigRef| (r.source@, r.target@))
}

/// Resolves the container-side target of a `target:` value.
pub fn resolve_target(t: String) -> (res: String)
    ensures
        res@ == spec_config_target(t@),
{
    let c = to_chars(t.as_str());
    if c.len() > 0 && c[0] == '/' {
        t
    } else {
        default_target(t.as_str())
    }
}

/// The default target of a config: `/<name>`.
pub fn default_target(name: &str) -> (res: String)
    ensures
        res@ == seq!['/'] + name@,
{
    let mut m = String::from_str("/");
    m.append(name);
    proof {
        reveal_strlit("/");
    }
    m
}

/// A reference as (source, target).
pub fn resolve_ref(r: ServiceConfigYaml) -> (res: (String, String))
    ensures
        (res.0@, res.1@) == spec_config_ref(r),
{
    match r {
        ServiceConfigYaml::Short(name) => {
            let target = default_target(name.as_str());
            (name, target)
        },
        ServiceConfigYaml::Long { source, target } => {
            let t = match target {
                Some(t) => resolve_target(t),
                None => default_target(source.as_str()),
            };
            (source, t)
        },
    }
}

/// Converts a service's `configs:` list against the declared names.
pub fn transform_service_refs(svc: &str, refs: Vec<ServiceConfigYaml>, declared: &Vec<String>) -> (res: Result<
    Vec<ServiceConfigRef>,
    ParseError,
>)
    ensures
        match spec_config_refs(svc@, refs@, name_views(declared@).to_set()) {
            Ok(list) => res matches Ok(v) && config_ref_views(v@) == list,
            Err(m) => res matches Err(e) && e.0@ == m,
        },
{
    let ghost src = refs@;
    let ghost dv = name_views(declared@).to_set();
    let n = refs.len();
    let mut items = reversed(refs);
    let mut out: Vec<ServiceConfigRef> = Vec::new();
    let mut i: usize = 0;
    assert(src.subrange(0, 0) =~= Seq::<ServiceConfigYaml>::empty());
    assert(config_ref_views(out@) =~= Seq::<(Seq<char>, Seq<char>)>::empty());
    while items.len() > 0
        invariant
            i <= n,
            n == src.len(),
            dv == name_views(declared@).to_set(),
            src == refs@,
            items@.len() == n - i,
            forall|k: int| 0 <= k < items@.len() ==> #[trigger] items@[k] == src[n - 1 - k],
            spec_config_refs(svc@, src.subrange(0, i as int), dv) == Ok::<
                Seq<(Seq<char>, Seq<char>)>,
                Seq<char>,
            >(config_ref_views(out@)),
        decreases items@.len(),
    {
        let ghost before = items@;
        let r = items.pop().unwrap();
        assert(before[before.len() - 1] == src[i as int]);
        let ghost upto = src.subrange(0, i + 1);
        assert(upto.drop_last() =~= src.subrange(0, i as int));
        assert(upto.last() == src[i as int]);
        let (source, target) = resolve_ref(r);
        if !contains_name(declared, &source) {
            let mut m = String::from_str("service `");
            m.append(svc);
            m.append("` references config `");
            m.append(source.as_str());
            m.append("` which isn't declared at top level");
            proof {
                assert(spec_config_refs(svc@, upto, dv) == Err::<Seq<(Seq<char>, Seq<char>)>, Seq<char>>(m@));
                lemma_config_refs_err_sticks(svc@, src, dv, i as int + 1);
                assert(src.subrange(0, n as int) =~= src);
            }
            return Err(ParseError(m));
        }
        let ghost ob = out@;
        out.push(ServiceConfigRef { source, target });
        assert(config_ref_views(out@) =~= config_ref_views(ob).push(spec_config_ref(src[i as int])));
        i = i + 1;
        assert forall|k: int| 0 <= k < items@.len() implies #[trigger] items@[k] == src[n - 1 - k] by {
            assert(items@[k] == before[k]);
        }
    }
    assert(src.subrange(0, n as int) =~= src);
    Ok(out)
}

/// Once a prefix of the references fails, every longer prefix fails with
/// the same error.
proof fn lemma_config_refs_err_sticks(svc: Seq<char>, src: Seq<ServiceConfigYaml>, dv: Set<Seq<char>>, k: int)
    requires
        0 <= k <= src.len(),
        spec_config_refs(svc, src.subrange(0, k), dv) is Err,
    ensures
        spec_config_refs(svc, src, dv) == spec_config_refs(svc, src.subrange(0, k), dv),
    decreases src.len() - k,
{
    if k < src.len() {
        let up = src.subrange(0, k + 1);
        assert(up.drop_last() =~= src.subrange(0, k));
        lemma_config_refs_err_sticks(svc, src, dv, k + 1);
    } else {
        assert(src.subrange(0, k) =~= src);
    }
}

} // verus!
