//! Maps parsed compose YAML onto nub's container-creation shapes.

use vstd::prelude::*;
use vstd::string::StringExecFns;

use super::duration::{parse_ns, spec_parse_ns};
use super::configs as configs_xform;
use super::configs::{config_ref_views, config_views, spec_config_refs, spec_configs};
use super::secrets::{
    name_views, secret_ref_views, secret_views, spec_secret_refs, spec_secrets, transform_service_refs,
    transform_top_level,
};
use super::spec::{
    ConfigSpec, CreateContainerReq, HealthcheckSpec, ParseError, PortPublish, RestartPolicySpec, SecretSpec,
    ServiceSpec, StackSpec, VolumeMount, VolumeSpec,
};
use super::wire::{
    distinct_keys, kv_pairs, label_view, pairs_map, spec_into_list, spec_kv_list, spec_shell_split, strs, Compose,
    HealthcheckYaml, MapOrList, ServiceYaml, StringOrList, VolumeYaml,
};
use crate::sort::{lemma_map_values_multiset, reversed, sort_by_key, sorted_by_key, Keyed};
use crate::num::{int_parse_error_message, int_parse_error_text, parse_i64, spec_parse_i64};
use crate::text::{chars_eq, chars_start_with, from_chars, slice_chars, split_char, split_chars, starts_with, to_chars};

verus! {

/// `service `<svc>`: <what> `<s>``.
pub open spec fn service_item_error(svc: Seq<char>, what: Seq<char>, s: Seq<char>) -> Seq<char> {
    "service `"@ + svc + "`: "@ + what + " `"@ + s + "`"@
}

/// Builds `service `<svc>`: <what> `<s>``.
fn service_item_message(svc: &str, what: &str, s: &str) -> (res: ParseError)
    ensures
        res.0@ == service_item_error(svc@, what@, s@),
{
    let mut m = String::from_str("service `");
    m.append(svc);
    m.append("`: ");
    m.append(what);
    m.append(" `");
    m.append(s);
    m.append("`");
    ParseError(m)
}

/// A published port: `CONTAINER`, `HOST:CONTAINER`, or
/// `IP:HOST:CONTAINER`, as (container, host).
pub open spec fn spec_parse_port(s: Seq<char>, svc: Seq<char>) -> Result<(Seq<char>, Seq<char>), Seq<char>> {
    let parts = split_char(s, ':');
    if parts.len() == 1 {
        Ok((parts[0], parts[0]))
    } else if parts.len() == 2 {
        Ok((parts[1], parts[0]))
    } else if parts.len() == 3 {
        Ok((parts[2], parts[0] + seq![':'] + parts[1]))
    } else {
        Err(service_item_error(svc, "bad port"@, s))
    }
}

/// A volume: `TARGET`, `SOURCE:TARGET`, or `SOURCE:TARGET:MODE` (read
/// only when MODE is `ro`), as (source, target, read_only).
pub open spec fn spec_parse_volume(s: Seq<char>, svc: Seq<char>) -> Result<(Seq<char>, Seq<char>, bool), Seq<char>> {
    let parts = split_char(s, ':');
    if parts.len() == 1 {
        Ok((seq![], parts[0], false))
    } else if parts.len() == 2 {
        Ok((parts[0], parts[1], false))
    } else if parts.len() == 3 {
        Ok((parts[0], parts[1], parts[2] == "ro"@))
    } else {
        Err(service_item_error(svc, "bad volume"@, s))
    }
}

/// Parses one `ports:` entry.
pub fn parse_port(s: &str, svc: &str) -> (res: Result<PortPublish, ParseError>)
    ensures
        match spec_parse_port(s@, svc@) {
            Ok((c, h)) => res matches Ok(p) && p.container@ == c && p.host@ == h,
            Err(m) => res matches Err(e) && e.0@ == m,
        },
{
    let chars = to_chars(s);
    let parts = split_chars(chars.as_slice(), ':');
    assert(parts@[0]@ == split_char(s@, ':')[0]);
    if parts.len() == 1 {
        Ok(PortPublish { container: from_chars(parts[0].as_slice()), host: from_chars(parts[0].as_slice()) })
    } else if parts.len() == 2 {
        assert(parts@[1]@ == split_char(s@, ':')[1]);
        Ok(PortPublish { container: from_chars(parts[1].as_slice()), host: from_chars(parts[0].as_slice()) })
    } else if parts.len() == 3 {
        assert(parts@[1]@ == split_char(s@, ':')[1]);
        assert(parts@[2]@ == split_char(s@, ':')[2]);
        let mut host = from_chars(parts[0].as_slice());
        host.append(":");
        host.append(from_chars(parts[1].as_slice()).as_str());
        proof {
            reveal_strlit(":");
        }
        Ok(PortPublish { container: from_chars(parts[2].as_slice()), host })
    } else {
        Err(service_item_message(svc, "bad port", s))
    }
}

/// Parses one `volumes:` entry.
pub fn parse_volume(s: &str, svc: &str) -> (res: Result<VolumeMount, ParseError>)
    ensures
        match spec_parse_volume(s@, svc@) {
            Ok((src, tgt, ro)) => res matches Ok(v) && v.source@ == src && v.target@ == tgt && v.read_only
                == ro,
            Err(m) => res matches Err(e) && e.0@ == m,
        },
{
    let chars = to_chars(s);
    let parts = split_chars(chars.as_slice(), ':');
    assert(parts@[0]@ == split_char(s@, ':')[0]);
    if parts.len() == 1 {
        Ok(VolumeMount { source: String::new(), target: from_chars(parts[0].as_slice()), read_only: false })
    } else if parts.len() == 2 {
        assert(parts@[1]@ == split_char(s@, ':')[1]);
        Ok(
            VolumeMount {
                source: from_chars(parts[0].as_slice()),
                target: from_chars(parts[1].as_slice()),
                read_only: false,
            },
        )
    } else if parts.len() == 3 {
        assert(parts@[1]@ == split_char(s@, ':')[1]);
        assert(parts@[2]@ == split_char(s@, ':')[2]);
        let ro = chars_eq(parts[2].as_slice(), to_chars("ro").as_slice());
        Ok(
            VolumeMount {
                source: from_chars(parts[0].as_slice()),
                target: from_chars(parts[1].as_slice()),
                read_only: ro,
            },
        )
    } else {
        Err(service_item_message(svc, "bad volume", s))
    }
}

/// A `restart:` value: `no`, `always`, `unless-stopped`, `on-failure`,
/// or `on-failure:N`.
pub open spec fn spec_parse_restart(s: Option<Seq<char>>, svc: Seq<char>) -> Result<Option<RestartPolicySpec>, Seq<char>> {
    match s {
        None => Ok(None),
        Some(v) => if v == "no"@ {
            Ok(Some(RestartPolicySpec::No))
        } else if v == "always"@ {
            Ok(Some(RestartPolicySpec::Always))
        } else if v == "unless-stopped"@ {
            Ok(Some(RestartPolicySpec::UnlessStopped))
        } else if v == "on-failure"@ {
            Ok(Some(RestartPolicySpec::OnFailure { max_retries: None }))
        } else if starts_with(v, "on-failure:"@) {
            let n = v.subrange(11, v.len() as int);
            match spec_parse_i64(n) {
                Some(k) => Ok(Some(RestartPolicySpec::OnFailure { max_retries: Some(k) })),
                None => Err("service `"@ + svc + "`: bad on-failure count: "@ + int_parse_error_text(n)),
            }
        } else {
            Err("service `"@ + svc + "`: unknown restart policy `"@ + v + "`"@)
        },
    }
}

/// Parses a `restart:` value.
pub fn parse_restart(s: Option<&str>, svc: &str) -> (res: Result<Option<RestartPolicySpec>, ParseError>)
    ensures
        match spec_parse_restart(
            match s {
                Some(v) => Some(v@),
                None => None,
            },
            svc@,
        ) {
            Ok(p) => res matches Ok(q) && q == p,
            Err(m) => res matches Err(e) && e.0@ == m,
        },
{
    let value = match s {
        None => {
            return Ok(None);
        },
        Some(v) => v,
    };
    proof {
        reveal_strlit("on-failure:");
    }
    let chars = to_chars(value);
    if crate::text::str_eq(value, "no") {
        Ok(Some(RestartPolicySpec::No))
    } else if crate::text::str_eq(value, "always") {
        Ok(Some(RestartPolicySpec::Always))
    } else if crate::text::str_eq(value, "unless-stopped") {
        Ok(Some(RestartPolicySpec::UnlessStopped))
    } else if crate::text::str_eq(value, "on-failure") {
        Ok(Some(RestartPolicySpec::OnFailure { max_retries: None }))
    } else if chars_start_with(chars.as_slice(), to_chars("on-failure:").as_slice()) {
        let rest = slice_chars(chars.as_slice(), 11, chars.len());
        match parse_i64(rest.as_slice()) {
            Some(k) => Ok(Some(RestartPolicySpec::OnFailure { max_retries: Some(k) })),
            None => {
                let text = int_parse_error_message(from_chars(rest.as_slice()).as_str());
                let mut m = String::from_str("service `");
                m.append(svc);
                m.append("`: bad on-failure count: ");
                m.append(text.as_str());
                Err(ParseError(m))
            },
        }
    } else {
        let mut m = String::from_str("service `");
        m.append(svc);
        m.append("`: unknown restart policy `");
        m.append(value);
        m.append("`");
        Err(ParseError(m))
    }
}

/// An optional duration field in nanoseconds.
pub open spec fn spec_opt_duration(o: Option<String>) -> Result<Option<i64>, Seq<char>> {
    match o {
        None => Ok(None),
        Some(d) => match spec_parse_ns(d@) {
            Ok(v) => Ok(Some(v)),
            Err(m) => Err(m),
        },
    }
}

/// An optional string-or-list field as a list; absent means empty.
pub open spec fn spec_opt_list(o: Option<StringOrList>) -> Seq<Seq<char>> {
    match o {
        None => seq![],
        Some(x) => spec_into_list(x),
    }
}

/// The healthcheck a `healthcheck:` block becomes, as (test,
/// interval, timeout, retries, start period); durations are checked in
/// that order. `disable: true` becomes the single test `NONE`.
pub open spec fn spec_healthcheck(hc: HealthcheckYaml) -> Result<
    (Seq<Seq<char>>, Option<i64>, Option<i64>, Option<i64>, Option<i64>),
    Seq<char>,
> {
    if hc.disable {
        Ok((seq!["NONE"@], None, None, None, None))
    } else {
        match spec_opt_duration(hc.interval) {
            Err(m) => Err(m),
            Ok(interval) => match spec_opt_duration(hc.timeout) {
                Err(m) => Err(m),
                Ok(timeout) => match spec_opt_duration(hc.start_period) {
                    Err(m) => Err(m),
                    Ok(start) => Ok((spec_opt_list(hc.test), interval, timeout, hc.retries, start)),
                },
            },
        }
    }
}

/// `h` carries exactly the resulting values `m`.
pub open spec fn healthcheck_is(
    h: HealthcheckSpec,
    m: (Seq<Seq<char>>, Option<i64>, Option<i64>, Option<i64>, Option<i64>),
) -> bool {
    strs(h.test@) == m.0 && h.interval_ns == m.1 && h.timeout_ns == m.2 && h.retries == m.3
        && h.start_period_ns == m.4
}

/// An optional duration field in nanoseconds.
fn opt_duration(o: Option<String>) -> (res: Result<Option<i64>, ParseError>)
    ensures
        match spec_opt_duration(o) {
            Ok(v) => res matches Ok(w) && w == v,
            Err(m) => res matches Err(e) && e.0@ == m,
        },
{
    match o {
        None => Ok(None),
        Some(d) => match parse_ns(d.as_str()) {
            Ok(v) => Ok(Some(v)),
            Err(e) => Err(e),
        },
    }
}

/// Converts a `healthcheck:` block.
pub fn transform_healthcheck(hc: HealthcheckYaml) -> (res: Result<HealthcheckSpec, ParseError>)
    ensures
        match spec_healthcheck(hc) {
            Ok(m) => res matches Ok(h) && healthcheck_is(h, m),
            Err(m) => res matches Err(e) && e.0@ == m,
        },
{
    if hc.disable {
        let mut test: Vec<String> = Vec::new();
        test.push(String::from_str("NONE"));
        assert(strs(test@) =~= seq!["NONE"@]);
        return Ok(
            HealthcheckSpec { test, interval_ns: None, timeout_ns: None, retries: None, start_period_ns: None },
        );
    }
    let interval_ns = opt_duration(hc.interval)?;
    let timeout_ns = opt_duration(hc.timeout)?;
    let start_period_ns = opt_duration(hc.start_period)?;
    let test = match hc.test {
        None => {
            let v: Vec<String> = Vec::new();
            assert(strs(v@) =~= seq![]);
            v
        },
        Some(t) => t.into_list(),
    };
    Ok(HealthcheckSpec { test, interval_ns, timeout_ns, retries: hc.retries, start_period_ns })
}


/// `ports:` entries as (container, host), in order; the first bad entry is
/// the error.
pub open spec fn spec_ports(items: Seq<String>, svc: Seq<char>) -> Result<Seq<(Seq<char>, Seq<char>)>, Seq<char>>
    decreases items.len(),
{
    if items.len() == 0 {
        Ok(seq![])
    } else {
        match spec_ports(items.drop_last(), svc) {
            Err(m) => Err(m),
            Ok(done) => match spec_parse_port(items.last()@, svc) {
                Err(m) => Err(m),
                Ok(p) => Ok(done.push(p)),
            },
        }
    }
}

/// Published ports as (container, host).
pub open spec fn port_views(v: Seq<PortPublish>) -> Seq<(Seq<char>, Seq<char>)> {
    v.map_values(|p: PortPublish| (p.container@, p.host@))
}

/// `volumes:` entries as (source, target, read_only), in order; the first
/// bad entry is the error.
pub open spec fn spec_volumes(items: Seq<String>, svc: Seq<char>) -> Result<
    Seq<(Seq<char>, Seq<char>, bool)>,
    Seq<char>,
>
    decreases items.len(),
{
    if items.len() == 0 {
        Ok(seq![])
    } else {
        match spec_volumes(items.drop_last(), svc) {
            Err(m) => Err(m),
            Ok(done) => match spec_parse_volume(items.last()@, svc) {
                Err(m) => Err(m),
                Ok(p) => Ok(done.push(p)),
            },
        }
    }
}

/// Mounts as (source, target, read_only).
pub open spec fn volume_views(v: Seq<VolumeMount>) -> Seq<(Seq<char>, Seq<char>, bool)> {
    v.map_values(|m: VolumeMount| (m.source@, m.target@, m.read_only))
}

/// Parses every `ports:` entry.
pub fn parse_ports(items: &Vec<String>, svc: &str) -> (res: Result<Vec<PortPublish>, ParseError>)
    ensures
        match spec_ports(items@, svc@) {
            Ok(list) => res matches Ok(v) && port_views(v@) == list,
            Err(m) => res matches Err(e) && e.0@ == m,
        },
{
    let mut out: Vec<PortPublish> = Vec::new();
    let mut i: usize = 0;
    assert(items@.subrange(0, 0) =~= Seq::<String>::empty());
    assert(port_views(out@) =~= Seq::<(Seq<char>, Seq<char>)>::empty());
    while i < items.len()
        invariant
            i <= items@.len(),
            spec_ports(items@.subrange(0, i as int), svc@) == Ok::<Seq<(Seq<char>, Seq<char>)>, Seq<char>>(
                port_views(out@),
            ),
        decreases items@.len() - i,
    {
        let ghost upto = items@.subrange(0, i + 1);
        assert(upto.drop_last() =~= items@.subrange(0, i as int));
        match parse_port(items[i].as_str(), svc) {
            Ok(p) => {
                let ghost ob = out@;
                out.push(p);
                assert(port_views(out@) =~= port_views(ob).push((p.container@, p.host@)));
            },
            Err(e) => {
                proof {
                    lemma_ports_err_sticks(items@, svc@, i + 1);
                }
                return Err(e);
            },
        }
        i = i + 1;
    }
    assert(items@.subrange(0, i as int) =~= items@);
    Ok(out)
}

proof fn lemma_ports_err_sticks(items: Seq<String>, svc: Seq<char>, k: int)
    requires
        0 <= k <= items.len(),
        spec_ports(items.subrange(0, k), svc) is Err,
    ensures
        spec_ports(items, svc) == spec_ports(items.subrange(0, k), svc),
    decreases items.len() - k,
{
    if k < items.len() {
        assert(items.subrange(0, k + 1).drop_last() =~= items.subrange(0, k));
        lemma_ports_err_sticks(items, svc, k + 1);
    } else {
        assert(items.subrange(0, k) =~= items);
    }
}

/// Parses every `volumes:` entry.
pub fn parse_volumes(items: &Vec<String>, svc: &str) -> (res: Result<Vec<VolumeMount>, ParseError>)
    ensures
        match spec_volumes(items@, svc@) {
            Ok(list) => res matches Ok(v) && volume_views(v@) == list,
            Err(m) => res matches Err(e) && e.0@ == m,
        },
{
    let mut out: Vec<VolumeMount> = Vec::new();
    let mut i: usize = 0;
    assert(items@.subrange(0, 0) =~= Seq::<String>::empty());
    assert(volume_views(out@) =~= Seq::<(Seq<char>, Seq<char>, bool)>::empty());
    while i < items.len()
        invariant
            i <= items@.len(),
            spec_volumes(items@.subrange(0, i as int), svc@) == Ok::<
                Seq<(Seq<char>, Seq<char>, bool)>,
                Seq<char>,
            >(volume_views(out@)),
        decreases items@.len() - i,
    {
        let ghost upto = items@.subrange(0, i + 1);
        assert(upto.drop_last() =~= items@.subrange(0, i as int));
        match parse_volume(items[i].as_str(), svc) {
            Ok(p) => {
                let ghost ob = out@;
                out.push(p);
                assert(volume_views(out@) =~= volume_views(ob).push((p.source@, p.target@, p.read_only)));
            },
            Err(e) => {
                proof {
                    lemma_volumes_err_sticks(items@, svc@, i + 1);
                }
                return Err(e);
            },
        }
        i = i + 1;
    }
    assert(items@.subrange(0, i as int) =~= items@);
    Ok(out)
}

proof fn lemma_volumes_err_sticks(items: Seq<String>, svc: Seq<char>, k: int)
    requires
        0 <= k <= items.len(),
        spec_volumes(items.subrange(0, k), svc) is Err,
    ensures
        spec_volumes(items, svc) == spec_volumes(items.subrange(0, k), svc),
    decreases items.len() - k,
{
    if k < items.len() {
        assert(items.subrange(0, k + 1).drop_last() =~= items.subrange(0, k));
        lemma_volumes_err_sticks(items, svc, k + 1);
    } else {
        assert(items.subrange(0, k) =~= items);
    }
}

/// An optional `command:`/`entrypoint:`; absent means empty.
pub open spec fn spec_opt_shell(o: Option<StringOrList>) -> Seq<Seq<char>> {
    match o {
        None => seq![],
        Some(x) => spec_shell_split(x),
    }
}

/// An optional `environment:`; absent means empty.
pub open spec fn spec_opt_env(o: Option<MapOrList>) -> Seq<Seq<char>> {
    match o {
        None => seq![],
        Some(x) => spec_kv_list(x),
    }
}

/// The label pairs of an optional `labels:`; absent means none.
pub open spec fn spec_opt_labels(o: Option<MapOrList>) -> Seq<(Seq<char>, Seq<char>)> {
    match o {
        None => seq![],
        Some(x) => kv_pairs(x),
    }
}

/// An optional `healthcheck:` block.
pub open spec fn spec_opt_healthcheck(o: Option<HealthcheckYaml>) -> Result<
    Option<(Seq<Seq<char>>, Option<i64>, Option<i64>, Option<i64>, Option<i64>)>,
    Seq<char>,
> {
    match o {
        None => Ok(None),
        Some(h) => match spec_healthcheck(h) {
            Ok(m) => Ok(Some(m)),
            Err(e) => Err(e),
        },
    }
}

/// An optional string as characters.
pub open spec fn opt_view(o: Option<String>) -> Option<Seq<char>> {
    match o {
        Some(s) => Some(s@),
        None => None,
    }
}

/// The error a service leads to, if any. Checks run in this order:
/// image, ports, volumes, restart policy, healthcheck, secrets, configs.
pub open spec fn service_error(
    name: Seq<char>,
    svc: ServiceYaml,
    secrets: Set<Seq<char>>,
    configs: Set<Seq<char>>,
) -> Option<Seq<char>> {
    if svc.image is None {
        Some("service `"@ + name + "` has no `image`"@)
    } else if let Err(m) = spec_ports(svc.ports@, name) {
        Some(m)
    } else if let Err(m) = spec_volumes(svc.volumes@, name) {
        Some(m)
    } else if let Err(m) = spec_parse_restart(opt_view(svc.restart), name) {
        Some(m)
    } else if let Err(m) = spec_opt_healthcheck(svc.healthcheck) {
        Some(m)
    } else if let Err(m) = spec_secret_refs(name, svc.secrets@, secrets) {
        Some(m)
    } else if let Err(m) = spec_config_refs(name, svc.configs@, configs) {
        Some(m)
    } else {
        None
    }
}

/// The container request `c` is what `svc` becomes.
pub open spec fn container_matches(c: CreateContainerReq, svc: ServiceYaml, name: Seq<char>) -> bool {
    &&& svc.image matches Some(i) && c.image@ == i@
    &&& c.name == svc.container_name
    &&& strs(c.cmd@) == spec_opt_shell(svc.command)
    &&& strs(c.entrypoint@) == spec_opt_shell(svc.entrypoint)
    &&& strs(c.env@) == spec_opt_env(svc.environment)
    &&& distinct_keys(label_view(c.labels@))
    &&& pairs_map(label_view(c.labels@)) == pairs_map(spec_opt_labels(svc.labels))
    &&& c.working_dir == svc.working_dir
    &&& c.user == svc.user
    &&& spec_ports(svc.ports@, name) == Ok::<Seq<(Seq<char>, Seq<char>)>, Seq<char>>(port_views(c.ports@))
    &&& spec_volumes(svc.volumes@, name) == Ok::<Seq<(Seq<char>, Seq<char>, bool)>, Seq<char>>(
        volume_views(c.volumes@),
    )
    &&& c.network == svc.network_mode
    &&& spec_parse_restart(opt_view(svc.restart), name) == Ok::<Option<RestartPolicySpec>, Seq<char>>(c.restart)
    &&& match spec_opt_healthcheck(svc.healthcheck) {
        Ok(None) => c.healthcheck is None,
        Ok(Some(m)) => c.healthcheck matches Some(h) && healthcheck_is(h, m),
        Err(_) => false,
    }
    &&& c.cap_add == svc.cap_add
    &&& c.cap_drop == svc.cap_drop
    &&& c.privileged == svc.privileged
    &&& c.extra_hosts == svc.extra_hosts
    &&& c.init == svc.init
    &&& c.hostname == svc.hostname
    &&& c.expose == svc.expose
}

/// The service `s` is what the compose service `name: svc` becomes.
pub open spec fn service_matches(
    s: ServiceSpec,
    name: Seq<char>,
    svc: ServiceYaml,
    secrets: Set<Seq<char>>,
    configs: Set<Seq<char>>,
) -> bool {
    &&& s.name@ == name
    &&& container_matches(s.container, svc, name)
    &&& spec_secret_refs(name, svc.secrets@, secrets) == Ok::<Seq<(Seq<char>, Seq<char>)>, Seq<char>>(
        secret_ref_views(s.secrets@),
    )
    &&& spec_config_refs(name, svc.configs@, configs) == Ok::<Seq<(Seq<char>, Seq<char>)>, Seq<char>>(
        config_ref_views(s.configs@),
    )
    &&& strs(s.unsupported@).to_multiset() == strs(svc.extra@).to_multiset()
    &&& sorted_by_key(s.unsupported@)
}

impl Keyed for String {
    open spec fn key(&self) -> Seq<char> {
        self@
    }

    fn key_chars(&self) -> (res: Vec<char>) {
        to_chars(self.as_str())
    }
}

/// The keys, sorted.
pub fn sorted_keys(keys: &Vec<String>) -> (res: Vec<String>)
    ensures
        strs(res@).to_multiset() == strs(keys@).to_multiset(),
        sorted_by_key(res@),
{
    let copy = keys.clone();
    assert(copy@ == keys@);
    let res = sort_by_key(copy);
    proof {
        lemma_map_values_multiset(res@, keys@, |s: String| s@);
    }
    res
}

/// Converts one compose service against the declared secret and config
/// names.
pub fn transform_service(
    name: String,
    svc: ServiceYaml,
    declared_secrets: &Vec<String>,
    declared_configs: &Vec<String>,
) -> (res: Result<ServiceSpec, ParseError>)
    ensures
        match service_error(name@, svc, name_views(declared_secrets@).to_set(), name_views(declared_configs@).to_set()) {
            Some(m) => res matches Err(e) && e.0@ == m,
            None => res matches Ok(s) && service_matches(
                s,
                name@,
                svc,
                name_views(declared_secrets@).to_set(),
                name_views(declared_configs@).to_set(),
            ),
        },
{
    let ghost orig = svc;
    let ServiceYaml {
        image,
        container_name,
        command,
        entrypoint,
        environment,
        ports,
        volumes,
        network_mode,
        restart,
        working_dir,
        user,
        labels,
        hostname,
        healthcheck,
        cap_add,
        cap_drop,
        privileged,
        extra_hosts,
        init,
        expose,
        secrets,
        configs,
        extra,
    } = svc;
    let image = match image {
        Some(i) => i,
        None => {
            let mut m = String::from_str("service `");
            m.append(name.as_str());
            m.append("` has no `image`");
            return Err(ParseError(m));
        },
    };
    let cmd = match command {
        None => {
            let v: Vec<String> = Vec::new();
            assert(strs(v@) =~= seq![]);
            v
        },
        Some(x) => x.shell_split(),
    };
    let entrypoint = match entrypoint {
        None => {
            let v: Vec<String> = Vec::new();
            assert(strs(v@) =~= seq![]);
            v
        },
        Some(x) => x.shell_split(),
    };
    let env = match environment {
        None => {
            let v: Vec<String> = Vec::new();
            assert(strs(v@) =~= seq![]);
            v
        },
        Some(x) => x.into_kv_list(),
    };
    let labels = match labels {
        None => {
            let v: Vec<(String, String)> = Vec::new();
            assert(label_view(v@) =~= seq![]);
            v
        },
        Some(x) => x.into_kv_map(),
    };
    let ports = parse_ports(&ports, name.as_str())?;
    let volumes = parse_volumes(&volumes, name.as_str())?;
    let restart = parse_restart(
        match &restart {
            Some(r) => Some(r.as_str()),
            None => None,
        },
        name.as_str(),
    )?;
    let healthcheck = match healthcheck {
        None => None,
        Some(h) => Some(transform_healthcheck(h)?),
    };
    let secrets = transform_service_refs(name.as_str(), secrets, declared_secrets)?;
    let configs = configs_xform::transform_service_refs(name.as_str(), configs, declared_configs)?;
    let unsupported = sorted_keys(&extra);
    let container = CreateContainerReq {
        image,
        name: container_name,
        cmd,
        entrypoint,
        env,
        labels,
        working_dir,
        user,
        ports,
        volumes,
        network: network_mode,
        restart,
        healthcheck,
        cap_add,
        cap_drop,
        privileged,
        extra_hosts,
        init,
        hostname,
        expose,
    };
    Ok(ServiceSpec { name, container, secrets, configs, unsupported })
}

impl Keyed for ServiceSpec {
    open spec fn key(&self) -> Seq<char> {
        self.name@
    }

    fn key_chars(&self) -> (res: Vec<char>) {
        to_chars(self.name.as_str())
    }
}

impl Keyed for VolumeSpec {
    open spec fn key(&self) -> Seq<char> {
        self.name@
    }

    fn key_chars(&self) -> (res: Vec<char>) {
        to_chars(self.name.as_str())
    }
}

/// The first names of a list of pairs, as a set.
pub open spec fn first_names(l: Seq<(Seq<char>, Seq<char>)>) -> Set<Seq<char>> {
    l.map_values(|p: (Seq<char>, Seq<char>)| p.0).to_set()
}

/// The first error among the services, taken in order.
pub open spec fn services_error(
    services: Seq<(String, ServiceYaml)>,
    secrets: Set<Seq<char>>,
    configs: Set<Seq<char>>,
) -> Option<Seq<char>>
    decreases services.len(),
{
    if services.len() == 0 {
        None
    } else {
        match services_error(services.drop_last(), secrets, configs) {
            Some(m) => Some(m),
            None => service_error(services.last().0@, services.last().1, secrets, configs),
        }
    }
}

/// The error a compose file leads to, if any: secrets first, then
/// configs, then the services in order.
pub open spec fn stack_error(raw: Compose) -> Option<Seq<char>> {
    match spec_secrets(raw.secrets@) {
        Err(m) => Some(m),
        Ok(sl) => match spec_configs(raw.configs@) {
            Err(m) => Some(m),
            Ok(cl) => services_error(raw.services@, first_names(sl), first_names(cl)),
        },
    }
}

/// Service names.
pub open spec fn service_names(v: Seq<ServiceSpec>) -> Seq<Seq<char>> {
    v.map_values(|s: ServiceSpec| s.name@)
}

/// Compose service keys.
pub open spec fn compose_service_names(v: Seq<(String, ServiceYaml)>) -> Seq<Seq<char>> {
    v.map_values(|p: (String, ServiceYaml)| p.0@)
}

/// Volumes as (name, external).
pub open spec fn volume_spec_views(v: Seq<VolumeSpec>) -> Seq<(Seq<char>, bool)> {
    v.map_values(|x: VolumeSpec| (x.name@, x.external))
}

/// Compose volumes as (name, external).
pub open spec fn compose_volume_views(v: Seq<(String, VolumeYaml)>) -> Seq<(Seq<char>, bool)> {
    v.map_values(|p: (String, VolumeYaml)| (p.0@, p.1.external))
}

/// `s` comes from one of `services`.
pub open spec fn comes_from_one_of(
    s: ServiceSpec,
    services: Seq<(String, ServiceYaml)>,
    secrets: Set<Seq<char>>,
    configs: Set<Seq<char>>,
) -> bool {
    exists|j: int|
        0 <= j < services.len() && #[trigger] service_matches(s, services[j].0@, services[j].1, secrets, configs)
}

/// `st` is what `raw` becomes, whose secrets and configs turn
/// into `sl` and `cl`.
pub open spec fn stack_matches(
    st: StackSpec,
    raw: Compose,
    sl: Seq<(Seq<char>, Seq<char>)>,
    cl: Seq<(Seq<char>, Seq<char>)>,
) -> bool {
    &&& secret_views(st.secrets@).to_multiset() == sl.to_multiset()
    &&& sorted_by_key(st.secrets@)
    &&& config_views(st.configs@).to_multiset() == cl.to_multiset()
    &&& sorted_by_key(st.configs@)
    &&& st.services@.len() == raw.services@.len()
    &&& service_names(st.services@).to_multiset() == compose_service_names(raw.services@).to_multiset()
    &&& forall|i: int|
        0 <= i < st.services@.len() ==> comes_from_one_of(
            #[trigger] st.services@[i],
            raw.services@,
            first_names(sl),
            first_names(cl),
        )
    &&& sorted_by_key(st.services@)
    &&& volume_spec_views(st.volumes@).to_multiset() == compose_volume_views(raw.volumes@).to_multiset()
    &&& sorted_by_key(st.volumes@)
    &&& strs(st.unsupported@).to_multiset() == strs(raw.extra@).to_multiset()
    &&& sorted_by_key(st.unsupported@)
}

/// Two sequences with the same elements hold the same set of elements.
proof fn lemma_same_set<A>(a: Seq<A>, b: Seq<A>)
    requires
        a.to_multiset() == b.to_multiset(),
    ensures
        a.to_set() == b.to_set(),
{
    broadcast use vstd::seq_lib::group_to_multiset_ensures;

    assert forall|x: A| a.to_set().contains(x) == b.to_set().contains(x) by {
        assert(a.contains(x) == (a.to_multiset().count(x) > 0));
        assert(b.contains(x) == (b.to_multiset().count(x) > 0));
    }
    assert(a.to_set() =~= b.to_set());
}

/// The declared secret names.
fn secret_names(v: &Vec<SecretSpec>) -> (res: Vec<String>)
    ensures
        name_views(res@) == secret_views(v@).map_values(|p: (Seq<char>, Seq<char>)| p.0),
{
    let mut out: Vec<String> = Vec::new();
    let mut i: usize = 0;
    while i < v.len()
        invariant
            i <= v@.len(),
            name_views(out@) == secret_views(v@.subrange(0, i as int)).map_values(
                |p: (Seq<char>, Seq<char>)| p.0,
            ),
        decreases v@.len() - i,
    {
        let ghost ob = out@;
        out.push(v[i].name.clone());
        assert(v@.subrange(0, i + 1) =~= v@.subrange(0, i as int).push(v@[i as int]));
        assert(name_views(out@) =~= name_views(ob).push(v@[i as int].name@));
        assert(name_views(out@) =~= secret_views(v@.subrange(0, i + 1)).map_values(
            |p: (Seq<char>, Seq<char>)| p.0,
        ));
        i = i + 1;
    }
    assert(v@.subrange(0, i as int) =~= v@);
    out
}

/// The declared config names.
fn config_names(v: &Vec<ConfigSpec>) -> (res: Vec<String>)
    ensures
        name_views(res@) == config_views(v@).map_values(|p: (Seq<char>, Seq<char>)| p.0),
{
    let mut out: Vec<String> = Vec::new();
    let mut i: usize = 0;
    while i < v.len()
        invariant
            i <= v@.len(),
            name_views(out@) == config_views(v@.subrange(0, i as int)).map_values(
                |p: (Seq<char>, Seq<char>)| p.0,
            ),
        decreases v@.len() - i,
    {
        let ghost ob = out@;
        out.push(v[i].name.clone());
        assert(v@.subrange(0, i + 1) =~= v@.subrange(0, i as int).push(v@[i as int]));
        assert(name_views(out@) =~= name_views(ob).push(v@[i as int].name@));
        assert(name_views(out@) =~= config_views(v@.subrange(0, i + 1)).map_values(
            |p: (Seq<char>, Seq<char>)| p.0,
        ));
        i = i + 1;
    }
    assert(v@.subrange(0, i as int) =~= v@);
    out
}

proof fn lemma_services_err_sticks(
    src: Seq<(String, ServiceYaml)>,
    ds: Set<Seq<char>>,
    dc: Set<Seq<char>>,
    k: int,
)
    requires
        0 <= k <= src.len(),
        services_error(src.subrange(0, k), ds, dc) is Some,
    ensures
        services_error(src, ds, dc) == services_error(src.subrange(0, k), ds, dc),
    decreases src.len() - k,
{
    if k < src.len() {
        assert(src.subrange(0, k + 1).drop_last() =~= src.subrange(0, k));
        lemma_services_err_sticks(src, ds, dc, k + 1);
    } else {
        assert(src.subrange(0, k) =~= src);
    }
}

/// Converts every service, in order, then sorts them by name.
fn transform_services(
    services: Vec<(String, ServiceYaml)>,
    declared_secrets: &Vec<String>,
    declared_configs: &Vec<String>,
) -> (res: Result<Vec<ServiceSpec>, ParseError>)
    ensures
        ({
            let ds = name_views(declared_secrets@).to_set();
            let dc = name_views(declared_configs@).to_set();
            match services_error(services@, ds, dc) {
                Some(m) => res matches Err(e) && e.0@ == m,
                None => res matches Ok(v) && v@.len() == services@.len() && service_names(v@).to_multiset()
                    == compose_service_names(services@).to_multiset() && sorted_by_key(v@) && (forall|i: int|
                    0 <= i < v@.len() ==> comes_from_one_of(#[trigger] v@[i], services@, ds, dc)),
            }
        }),
{
    let ghost src = services@;
    let ghost ds = name_views(declared_secrets@).to_set();
    let ghost dc = name_views(declared_configs@).to_set();
    let n = services.len();
    let mut items = reversed(services);
    let mut out: Vec<ServiceSpec> = Vec::new();
    let mut i: usize = 0;
    assert(src.subrange(0, 0) =~= Seq::<(String, ServiceYaml)>::empty());
    while items.len() > 0
        invariant
            i <= n,
            n == src.len(),
            src == services@,
            ds == name_views(declared_secrets@).to_set(),
            dc == name_views(declared_configs@).to_set(),
            items@.len() == n - i,
            forall|k: int| 0 <= k < items@.len() ==> #[trigger] items@[k] == src[n - 1 - k],
            services_error(src.subrange(0, i as int), ds, dc) is None,
            out@.len() == i,
            forall|k: int|
                0 <= k < i ==> #[trigger] service_matches(out@[k], src[k].0@, src[k].1, ds, dc),
        decreases items@.len(),
    {
        let ghost before = items@;
        let (name, svc) = items.pop().unwrap();
        assert(before[before.len() - 1] == src[i as int]);
        let ghost upto = src.subrange(0, i + 1);
        assert(upto.drop_last() =~= src.subrange(0, i as int));
        assert(upto.last() == src[i as int]);
        match transform_service(name, svc, declared_secrets, declared_configs) {
            Ok(s) => {
                out.push(s);
            },
            Err(e) => {
                proof {
                    lemma_services_err_sticks(src, ds, dc, i + 1);
                }
                return Err(e);
            },
        }
        i = i + 1;
        assert forall|k: int| 0 <= k < items@.len() implies #[trigger] items@[k] == src[n - 1 - k] by {
            assert(items@[k] == before[k]);
        }
    }
    assert(src.subrange(0, n as int) =~= src);
    let ghost unsorted = out@;
    proof {
        assert forall|k: int| 0 <= k < n implies service_names(unsorted)[k] == compose_service_names(src)[k] by {
            assert(service_matches(unsorted[k], src[k].0@, src[k].1, ds, dc));
        }
        assert(service_names(unsorted) =~= compose_service_names(src));
    }
    let sorted = sort_by_key(out);
    proof {
        broadcast use vstd::seq_lib::group_to_multiset_ensures;

        lemma_map_values_multiset(sorted@, unsorted, |s: ServiceSpec| s.name@);
        sorted@.to_multiset_ensures();
        unsorted.to_multiset_ensures();
        assert forall|i: int| 0 <= i < sorted@.len() implies comes_from_one_of(
            #[trigger] sorted@[i],
            src,
            ds,
            dc,
        ) by {
            assert(sorted@.to_multiset().count(sorted@[i]) > 0);
            assert(unsorted.contains(sorted@[i]));
            let j = choose|j: int| 0 <= j < unsorted.len() && unsorted[j] == sorted@[i];
            assert(service_matches(unsorted[j], src[j].0@, src[j].1, ds, dc));
        }
    }
    Ok(sorted)
}

/// Declared volumes, sorted by name.
fn transform_volumes(volumes: Vec<(String, VolumeYaml)>) -> (res: Vec<VolumeSpec>)
    ensures
        volume_spec_views(res@).to_multiset() == compose_volume_views(volumes@).to_multiset(),
        sorted_by_key(res@),
{
    let ghost src = volumes@;
    let n = volumes.len();
    let mut items = reversed(volumes);
    let mut out: Vec<VolumeSpec> = Vec::new();
    let mut i: usize = 0;
    while items.len() > 0
        invariant
            i <= n,
            n == src.len(),
            src == volumes@,
            items@.len() == n - i,
            forall|k: int| 0 <= k < items@.len() ==> #[trigger] items@[k] == src[n - 1 - k],
            volume_spec_views(out@) == compose_volume_views(src.subrange(0, i as int)),
        decreases items@.len(),
    {
        let ghost before = items@;
        let (name, v) = items.pop().unwrap();
        assert(before[before.len() - 1] == src[i as int]);
        let ghost ob = out@;
        let ghost vname = name@;
        let ghost vext = v.external;
        out.push(VolumeSpec { name, external: v.external });
        assert(src.subrange(0, i + 1) =~= src.subrange(0, i as int).push(src[i as int]));
        assert(volume_spec_views(out@) =~= volume_spec_views(ob).push((vname, vext)));
        assert(volume_spec_views(out@) =~= compose_volume_views(src.subrange(0, i + 1)));
        i = i + 1;
        assert forall|k: int| 0 <= k < items@.len() implies #[trigger] items@[k] == src[n - 1 - k] by {
            assert(items@[k] == before[k]);
        }
    }
    assert(src.subrange(0, n as int) =~= src);
    let ghost unsorted = out@;
    let sorted = sort_by_key(out);
    proof {
        lemma_map_values_multiset(sorted@, unsorted, |x: VolumeSpec| (x.name@, x.external));
    }
    sorted
}

/// Converts a whole compose file.
pub fn transform(raw: Compose) -> (res: Result<StackSpec, ParseError>)
    ensures
        match stack_error(raw) {
            Some(m) => res matches Err(e) && e.0@ == m,
            None => res matches Ok(st) && spec_secrets(raw.secrets@) matches Ok(sl) && spec_configs(raw.configs@) matches Ok(cl) && stack_matches(st, raw, sl, cl),
        },
{
    let ghost orig = raw;
    let Compose { services, volumes, secrets, configs, version: _, extra } = raw;
    let secrets = transform_top_level(secrets)?;
    let ghost sl = match spec_secrets(orig.secrets@) { Ok(l) => l, Err(_) => seq![] };
    let snames = secret_names(&secrets);
    let configs = configs_xform::transform_top_level(configs)?;
    let ghost cl = match spec_configs(orig.configs@) { Ok(l) => l, Err(_) => seq![] };
    let cnames = config_names(&configs);
    proof {
        lemma_map_values_multiset(secret_views(secrets@), sl, |p: (Seq<char>, Seq<char>)| p.0);
        lemma_same_set(name_views(snames@), sl.map_values(|p: (Seq<char>, Seq<char>)| p.0));
        lemma_map_values_multiset(config_views(configs@), cl, |p: (Seq<char>, Seq<char>)| p.0);
        lemma_same_set(name_views(cnames@), cl.map_values(|p: (Seq<char>, Seq<char>)| p.0));
        assert(name_views(snames@).to_set() == first_names(sl));
        assert(name_views(cnames@).to_set() == first_names(cl));
    }
    let services = transform_services(services, &snames, &cnames)?;
    let volumes = transform_volumes(volumes);
    let unsupported = sorted_keys(&extra);
    Ok(StackSpec { services, volumes, secrets, configs, unsupported })
}

/// Each `restart:` keyword selects its own policy: `no`, `always` and
/// `unless-stopped` are the only values that yield `No`, `Always` and
/// `UnlessStopped`, an `on-failure` policy comes only from `on-failure`
/// (with or without a count), and no value at all means no policy.
pub proof fn law_restart_keywords(v: Option<Seq<char>>, svc: Seq<char>)
    ensures
        spec_parse_restart(v, svc) == Ok::<Option<RestartPolicySpec>, Seq<char>>(None) <==> v is None,
        spec_parse_restart(v, svc) == Ok::<Option<RestartPolicySpec>, Seq<char>>(Some(RestartPolicySpec::No))
            <==> v == Some("no"@),
        spec_parse_restart(v, svc) == Ok::<Option<RestartPolicySpec>, Seq<char>>(Some(RestartPolicySpec::Always))
            <==> v == Some("always"@),
        spec_parse_restart(v, svc) == Ok::<Option<RestartPolicySpec>, Seq<char>>(
            Some(RestartPolicySpec::UnlessStopped),
        ) <==> v == Some("unless-stopped"@),
        spec_parse_restart(v, svc) == Ok::<Option<RestartPolicySpec>, Seq<char>>(
            Some(RestartPolicySpec::OnFailure { max_retries: None }),
        ) <==> v == Some("on-failure"@),
        (spec_parse_restart(v, svc) matches Ok(Some(RestartPolicySpec::OnFailure { max_retries: Some(_) })))
            ==> (v matches Some(x) && starts_with(x, "on-failure:"@)),
{
    reveal_strlit("no");
    reveal_strlit("always");
    reveal_strlit("unless-stopped");
    reveal_strlit("on-failure");
    reveal_strlit("on-failure:");
}

/// `on-failure:N` keeps restarting on failure at most the number `N`
/// reads as (an `i64`, as `str::parse` reads it), and a count that does
/// not read as one is refused.
pub proof fn law_restart_on_failure_count(n: Seq<char>, svc: Seq<char>)
    ensures
        match spec_parse_i64(n) {
            Some(k) => spec_parse_restart(Some("on-failure:"@ + n), svc) == Ok::<
                Option<RestartPolicySpec>,
                Seq<char>,
            >(Some(RestartPolicySpec::OnFailure { max_retries: Some(k) })),
            None => spec_parse_restart(Some("on-failure:"@ + n), svc) is Err,
        },
{
    reveal_strlit("no");
    reveal_strlit("always");
    reveal_strlit("unless-stopped");
    reveal_strlit("on-failure");
    reveal_strlit("on-failure:");
    let v = "on-failure:"@ + n;
    assert(v.subrange(0, 11) =~= "on-failure:"@);
    assert(v.subrange(11, v.len() as int) =~= n);
    assert(v.len() > 10 && v[10] == ':');
    assert(v != "on-failure"@ && v != "no"@ && v != "always"@);
    assert(v[0] == 'o');
    assert("unless-stopped"@[0] == 'u');
}

} // verus!
