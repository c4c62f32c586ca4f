//! Compose-shaped wire types. Many compose fields accept either a string
//! or a list (`command: "npm start"` vs `["npm", "start"]`) or either a
//! list or a map (`environment: ["K=v"]` vs `{ K: v }`). Maps from the
//! YAML are held as vectors of (key, value) pairs with distinct keys.

use vstd::prelude::*;
use vstd::string::StringExecFns;

use crate::text::{find_char, from_chars, slice_chars, split_unicode_ws, to_chars, unicode_tokens, views};

verus! {

/// A whole compose file.
#[derive(Default)]
pub struct Compose {
    pub services: Vec<(String, ServiceYaml)>,
    pub volumes: Vec<(String, VolumeYaml)>,
    pub secrets: Vec<(String, SecretYaml)>,
    pub configs: Vec<(String, ConfigYaml)>,
    /// Compose schema version. Informational; ignored.
    pub version: Option<String>,
    /// Keys of the other top-level entries.
    pub extra: Vec<String>,
}

/// One entry under `services:`.
#[derive(Default)]
pub struct ServiceYaml {
    pub image: Option<String>,
    pub container_name: Option<String>,
    pub command: Option<StringOrList>,
    pub entrypoint: Option<StringOrList>,
    pub environment: Option<MapOrList>,
    pub ports: Vec<String>,
    pub volumes: Vec<String>,
    pub network_mode: Option<String>,
    pub restart: Option<String>,
    pub working_dir: Option<String>,
    pub user: Option<String>,
    pub labels: Option<MapOrList>,
    pub hostname: Option<String>,
    pub healthcheck: Option<HealthcheckYaml>,
    pub cap_add: Vec<String>,
    pub cap_drop: Vec<String>,
    pub privileged: bool,
    pub extra_hosts: Vec<String>,
    pub init: Option<bool>,
    pub expose: Vec<String>,
    pub secrets: Vec<ServiceSecretYaml>,
    pub configs: Vec<ServiceConfigYaml>,
    /// Keys of the other service-level entries.
    pub extra: Vec<String>,
}

/// A service `healthcheck:` block.
#[derive(Default)]
pub struct HealthcheckYaml {
    pub test: Option<StringOrList>,
    pub interval: Option<String>,
    pub timeout: Option<String>,
    pub retries: Option<i64>,
    pub start_period: Option<String>,
    pub disable: bool,
}

/// One entry under top-level `volumes:`.
#[derive(Default)]
pub struct VolumeYaml {
    pub external: bool,
}

/// One entry under top-level `secrets:`.
#[derive(Default)]
pub struct SecretYaml {
    pub file: Option<String>,
    pub environment: Option<String>,
    pub external: bool,
    pub name: Option<String>,
}

/// One entry under top-level `configs:`.
#[derive(Default)]
pub struct ConfigYaml {
    pub file: Option<String>,
    pub content: Option<String>,
    pub external: bool,
    pub environment: Option<String>,
}

/// A service's reference to a secret: a bare name or `source`/`target`.
pub enum ServiceSecretYaml {
    Short(String),
    Long { source: String, target: Option<String> },
}

/// A service's reference to a config: a bare name or `source`/`target`.
pub enum ServiceConfigYaml {
    Short(String),
    Long { source: String, target: Option<String> },
}

/// A field that is a string or a list of strings.
pub enum StringOrList {
    Str(String),
    List(Vec<String>),
}

/// A field that is a map (values may be null) or a list of strings.
pub enum MapOrList {
    Mapping(Vec<(String, Option<String>)>),
    List(Vec<String>),
}

/// Views of a vector of strings.
pub open spec fn strs(v: Seq<String>) -> Seq<Seq<char>> {
    v.map_values(|s: String| s@)
}

/// `command:`/`entrypoint:` semantics: a bare string is split on
/// whitespace, a list is taken verbatim.
pub open spec fn spec_shell_split(x: StringOrList) -> Seq<Seq<char>> {
    match x {
        StringOrList::Str(s) => unicode_tokens(s@),
        StringOrList::List(v) => strs(v@),
    }
}

/// A bare string becomes a one-element list; a list is kept.
pub open spec fn spec_into_list(x: StringOrList) -> Seq<Seq<char>> {
    match x {
        StringOrList::Str(s) => seq![s@],
        StringOrList::List(v) => strs(v@),
    }
}

/// `KEY=VALUE`, or just `KEY` for a null value.
pub open spec fn kv_entry(k: Seq<char>, v: Option<Seq<char>>) -> Seq<char> {
    match v {
        Some(val) => k + seq!['='] + val,
        None => k,
    }
}

/// Each entry as `KEY=VALUE`, or `KEY` when null.
pub open spec fn kv_strings(m: Seq<(Seq<char>, Option<Seq<char>>)>) -> Seq<Seq<char>>
    decreases m.len(),
{
    if m.len() == 0 {
        seq![]
    } else {
        kv_strings(m.drop_last()).push(kv_entry(m.last().0, m.last().1))
    }
}

/// Map entries as views.
pub open spec fn map_entries(m: Seq<(String, Option<String>)>) -> Seq<(Seq<char>, Option<Seq<char>>)> {
    m.map_values(|p: (String, Option<String>)| (p.0@, match p.1 { Some(s) => Some(s@), None => None }))
}

/// `environment:` semantics: flattened to `KEY=VALUE` strings.
pub open spec fn spec_kv_list(x: MapOrList) -> Seq<Seq<char>> {
    match x {
        MapOrList::Mapping(m) => kv_strings(map_entries(m@)),
        MapOrList::List(v) => strs(v@),
    }
}

/// The (key, value) pairs a `labels:` field yields, in order: map
/// entries with a value, and list entries split at their first `=`.
pub open spec fn kv_pairs(x: MapOrList) -> Seq<(Seq<char>, Seq<char>)> {
    match x {
        MapOrList::Mapping(m) => pairs_with_value(map_entries(m@)),
        MapOrList::List(v) => split_pairs(strs(v@)),
    }
}

/// Entries that have a value.
pub open spec fn pairs_with_value(m: Seq<(Seq<char>, Option<Seq<char>>)>) -> Seq<(Seq<char>, Seq<char>)>
    decreases m.len(),
{
    if m.len() == 0 {
        seq![]
    } else {
        let rest = pairs_with_value(m.drop_last());
        match m.last().1 {
            Some(v) => rest.push((m.last().0, v)),
            None => rest,
        }
    }
}

/// `KEY=VALUE` strings split at their first `=`; strings without `=`
/// are dropped.
pub open spec fn split_pairs(v: Seq<Seq<char>>) -> Seq<(Seq<char>, Seq<char>)>
    decreases v.len(),
{
    if v.len() == 0 {
        seq![]
    } else {
        let rest = split_pairs(v.drop_last());
        let s = v.last();
        match crate::compose::substitute::first_index(s, '=', 0) {
            Some(k) => rest.push((s.subrange(0, k), s.subrange(k + 1, s.len() as int))),
            None => rest,
        }
    }
}

/// The map a sequence of pairs builds when later pairs overwrite
/// earlier ones.
pub open spec fn pairs_map(p: Seq<(Seq<char>, Seq<char>)>) -> Map<Seq<char>, Seq<char>>
    decreases p.len(),
{
    if p.len() == 0 {
        Map::empty()
    } else {
        pairs_map(p.drop_last()).insert(p.last().0, p.last().1)
    }
}

/// Label pairs as views.
pub open spec fn label_view(v: Seq<(String, String)>) -> Seq<(Seq<char>, Seq<char>)> {
    v.map_values(|p: (String, String)| (p.0@, p.1@))
}

/// No key occurs twice.
pub open spec fn distinct_keys(p: Seq<(Seq<char>, Seq<char>)>) -> bool {
    forall|i: int, j: int| 0 <= i < j < p.len() ==> p[i].0 != p[j].0
}

impl StringOrList {
    /// `command:`/`entrypoint:` semantics: a bare string is split on
    /// whitespace, a list is taken verbatim.
    pub fn shell_split(self) -> (res: Vec<String>)
        ensures
            strs(res@) == spec_shell_split(self),
    {
        match self {
            StringOrList::Str(s) => {
                let chars = to_chars(s.as_str());
                let toks = split_unicode_ws(chars.as_slice());
                to_strings(&toks)
            },
            StringOrList::List(v) => v,
        }
    }

    /// A bare string becomes a one-element list; a list is kept.
    pub fn into_list(self) -> (res: Vec<String>)
        ensures
            strs(res@) == spec_into_list(self),
    {
        match self {
            StringOrList::Str(s) => {
                let mut v: Vec<String> = Vec::new();
                v.push(s);
                assert(strs(v@) =~= seq![s@]);
                v
            },
            StringOrList::List(v) => v,
        }
    }
}

/// Character vectors as `String`s.
pub fn to_strings(toks: &Vec<Vec<char>>) -> (res: Vec<String>)
    ensures
        strs(res@) == views(toks@),
{
    let mut out: Vec<String> = Vec::new();
    let mut i: usize = 0;
    while i < toks.len()
        invariant
            i <= toks@.len(),
            strs(out@) == views(toks@.subrange(0, i as int)),
        decreases toks@.len() - i,
    {
        let ghost before = out@;
        let item = from_chars(toks[i].as_slice());
        out.push(item);
        assert(out@ =~= before.push(item));
        assert(views(toks@.subrange(0, i + 1)) =~= views(toks@.subrange(0, i as int)).push(toks@[i as int]@));
        assert(strs(out@) =~= views(toks@.subrange(0, i + 1)));
        i = i + 1;
    }
    assert(toks@.subrange(0, toks@.len() as int) =~= toks@);
    out
}

impl MapOrList {
    /// Flattens to `KEY=VALUE` strings (the engine's env format).
    pub fn into_kv_list(self) -> (res: Vec<String>)
        ensures
            strs(res@) == spec_kv_list(self),
    {
        match self {
            MapOrList::Mapping(m) => {
                let ghost mv = map_entries(m@);
                let mut out: Vec<String> = Vec::new();
                let mut i: usize = 0;
                while i < m.len()
                    invariant
                        i <= m@.len(),
                        mv == map_entries(m@),
                        strs(out@) == kv_strings(mv.subrange(0, i as int)),
                    decreases m@.len() - i,
                {
                    let entry = match &m[i].1 {
                        Some(val) => {
                            let mut e = m[i].0.clone();
                            e.append("=");
                            e.append(val.as_str());
                            proof {
                                reveal_strlit("=");
                            }
                            e
                        },
                        None => m[i].0.clone(),
                    };
                    let ghost before = out@;
                    proof {
                        assert(mv[i as int] == (m@[i as int].0@, match m@[i as int].1 {
                            Some(x) => Some(x@),
                            None => None,
                        }));
                        assert(entry@ == kv_entry(mv[i as int].0, mv[i as int].1));
                    }
                    out.push(entry);
                    assert(out@ =~= before.push(entry));
                    assert(mv.subrange(0, i + 1).drop_last() =~= mv.subrange(0, i as int));
                    assert(strs(out@) =~= kv_strings(mv.subrange(0, i + 1)));
                    i = i + 1;
                }
                assert(mv.subrange(0, mv.len() as int) =~= mv);
                out
            },
            MapOrList::List(v) => v,
        }
    }

    /// Flattens to a map. List entries without `=` are dropped; a later
    /// entry for the same key replaces an earlier one.
    pub fn into_kv_map(self) -> (res: Vec<(String, String)>)
        ensures
            distinct_keys(label_view(res@)),
            pairs_map(label_view(res@)) == pairs_map(kv_pairs(self)),
    {
        let ghost src = kv_pairs(self);
        let mut out: Vec<(String, String)> = Vec::new();
        match self {
            MapOrList::Mapping(m) => {
                let ghost mv = map_entries(m@);
                let mut i: usize = 0;
                while i < m.len()
                    invariant
                        i <= m@.len(),
                        mv == map_entries(m@),
                        distinct_keys(label_view(out@)),
                        pairs_map(label_view(out@)) == pairs_map(pairs_with_value(mv.subrange(0, i as int))),
                    decreases m@.len() - i,
                {
                    let ghost upto = mv.subrange(0, i + 1);
                    assert(upto.drop_last() =~= mv.subrange(0, i as int));
                    proof {
                        assert(upto.last() == mv[i as int]);
                        assert(mv[i as int] == (m@[i as int].0@, match m@[i as int].1 {
                            Some(x) => Some(x@),
                            None => None,
                        }));
                    }
                    if let Some(val) = &m[i].1 {
                        assert(pairs_with_value(upto) == pairs_with_value(mv.subrange(0, i as int)).push(
                            (m@[i as int].0@, val@),
                        ));
                        assert(pairs_with_value(upto).drop_last() =~= pairs_with_value(mv.subrange(0, i as int)));
                        insert_pair(&mut out, m[i].0.clone(), val.clone());
                    } else {
                        assert(pairs_with_value(upto) == pairs_with_value(mv.subrange(0, i as int)));
                    }
                    i = i + 1;
                }
                assert(mv.subrange(0, mv.len() as int) =~= mv);
            },
            MapOrList::List(list) => {
                let ghost lv = strs(list@);
                let mut i: usize = 0;
                while i < list.len()
                    invariant
                        i <= list@.len(),
                        lv == strs(list@),
                        distinct_keys(label_view(out@)),
                        pairs_map(label_view(out@)) == pairs_map(split_pairs(lv.subrange(0, i as int))),
                    decreases list@.len() - i,
                {
                    let ghost upto = lv.subrange(0, i + 1);
                    assert(upto.drop_last() =~= lv.subrange(0, i as int));
                    let chars = to_chars(list[i].as_str());
                    let n = chars.len();
                    let mut k: usize = 0;
                    while k < n && chars[k] != '='
                        invariant
                            k <= n,
                            n == chars@.len(),
                            crate::compose::substitute::first_index(chars@, '=', 0)
                                == crate::compose::substitute::first_index(chars@, '=', k as int),
                        decreases n - k,
                    {
                        k = k + 1;
                    }
                    assert(upto.last() == lv[i as int]);
                    assert(lv[i as int] == chars@);
                    if k < n {
                        let key = from_chars(slice_chars(chars.as_slice(), 0, k).as_slice());
                        let val = from_chars(slice_chars(chars.as_slice(), k + 1, n).as_slice());
                        assert(split_pairs(upto) == split_pairs(lv.subrange(0, i as int)).push(
                            (key@, val@),
                        ));
                        assert(split_pairs(upto).drop_last() =~= split_pairs(lv.subrange(0, i as int)));
                        insert_pair(&mut out, key, val);
                    } else {
                        assert(split_pairs(upto) == split_pairs(lv.subrange(0, i as int)));
                    }
                    i = i + 1;
                }
                assert(lv.subrange(0, lv.len() as int) =~= lv);
            },
        }
        out
    }
}

/// Sets `key` to `val`, replacing an existing entry for `key`.
fn insert_pair(out: &mut Vec<(String, String)>, key: String, val: String)
    requires
        distinct_keys(label_view(old(out)@)),
    ensures
        distinct_keys(label_view(final(out)@)),
        pairs_map(label_view(final(out)@)) == pairs_map(label_view(old(out)@)).insert(key@, val@),
{
    let ghost before = label_view(out@);
    let kc = to_chars(key.as_str());
    let mut i: usize = 0;
    while i < out.len()
        invariant
            i <= out@.len(),
            out@ == old(out)@,
            before == label_view(out@),
            kc@ == key@,
            distinct_keys(before),
            forall|j: int| 0 <= j < i ==> before[j].0 != key@,
        decreases out@.len() - i,
    {
        let oc = to_chars(out[i].0.as_str());
        if crate::text::chars_eq(oc.as_slice(), kc.as_slice()) {
            assert(before[i as int].0 == key@);
            out.set(i, (key, val));
            proof {
                let after = label_view(out@);
                assert(after =~= before.update(i as int, (key@, val@)));
                lemma_pairs_map_update(before, i as int, val@);
            }
            return;
        }
        i = i + 1;
    }
    out.push((key, val));
    proof {
        let after = label_view(out@);
        assert(after =~= before.push((key@, val@)));
        assert(after.drop_last() =~= before);
    }
}

/// Replacing the value of a key that occurs once updates the map.
proof fn lemma_pairs_map_update(p: Seq<(Seq<char>, Seq<char>)>, i: int, v: Seq<char>)
    requires
        distinct_keys(p),
        0 <= i < p.len(),
    ensures
        pairs_map(p.update(i, (p[i].0, v))) == pairs_map(p).insert(p[i].0, v),
        distinct_keys(p.update(i, (p[i].0, v))),
    decreases p.len(),
{
    let q = p.update(i, (p[i].0, v));
    if i == p.len() - 1 {
        assert(q.drop_last() =~= p.drop_last());
        assert(pairs_map(p).insert(p[i].0, v) =~= pairs_map(p.drop_last()).insert(p[i].0, v));
    } else {
        let pd = p.drop_last();
        assert(distinct_keys(pd));
        lemma_pairs_map_update(pd, i, v);
        assert(q.drop_last() =~= pd.update(i, (pd[i].0, v)));
        assert(p.last().0 != p[i].0);
        assert(pairs_map(q) =~= pairs_map(p).insert(p[i].0, v));
    }
}

} // verus!
