//! `nub bind`: the `allowed_binds` list of `nub.toml`. The file is edited
//! in place through `toml_edit`, so comments and field order survive. The
//! change takes effect when nub restarts.

use toml_edit::DocumentMut;
use vstd::prelude::*;
use vstd::string::StringExecFns;

use super::error::CliError;
use crate::compose::wire::strs;

verus! {

/// What `allowed_binds` holds in a TOML text: per array element, its text
/// when it is a string; `None` when the key is missing or not an array;
/// or the parse error's text.
pub uninterp spec fn toml_binds_field(text: Seq<char>) -> Result<Option<Seq<Option<Seq<char>>>>, Seq<char>>;

/// The TOML text with `allowed_binds` set to an array of `paths`, or the
/// parse error's text.
pub uninterp spec fn toml_with_binds(text: Seq<char>, paths: Seq<Seq<char>>) -> Result<Seq<char>, Seq<char>>;

/// Optional strings as optional character sequences.
pub open spec fn opt_strs(v: Seq<Option<String>>) -> Seq<Option<Seq<char>>> {
    v.map_values(|o: Option<String>| match o {
        Some(s) => Some(s@),
        None => None,
    })
}

/// Parses a TOML document (`str::parse::<DocumentMut>`) and reads its
/// `allowed_binds` item (`get`, `as_array`, each element's `as_str`).
/// Claimed: the outcome is named by `toml_binds_field`.
#[verifier::external_body]
fn read_binds_field(text: &str) -> (res: Result<Option<Vec<Option<String>>>, String>)
    ensures
        match toml_binds_field(text@) {
            Ok(None) => res matches Ok(None),
            Ok(Some(items)) => res matches Ok(Some(v)) && opt_strs(v@) == items,
            Err(m) => res matches Err(e) && e@ == m,
        },
{
    match text.parse::<DocumentMut>() {
        Ok(doc) => Ok(
            doc.get("allowed_binds").and_then(|v| v.as_array()).map(
                |arr| arr.iter().map(|i| i.as_str().map(String::from)).collect(),
            ),
        ),
        Err(e) => Err(e.to_string()),
    }
}

/// Parses a TOML document, sets `allowed_binds` to a new array of
/// `paths` (`Array::new`, `push`, `value`) and renders it (`to_string`).
/// Claimed: the outcome is named by `toml_with_binds`.
#[verifier::external_body]
fn write_binds_field(text: &str, paths: &Vec<String>) -> (res: Result<String, String>)
    ensures
        match toml_with_binds(text@, strs(paths@)) {
            Ok(t) => res matches Ok(r) && r@ == t,
            Err(m) => res matches Err(e) && e@ == m,
        },
{
    match text.parse::<DocumentMut>() {
        Ok(mut doc) => {
            let mut arr = toml_edit::Array::new();
            for p in paths {
                arr.push(p.as_str());
            }
            doc["allowed_binds"] = toml_edit::value(arr);
            Ok(doc.to_string())
        },
        Err(e) => Err(e.to_string()),
    }
}

/// The string elements, in order.
pub open spec fn string_items(items: Seq<Option<Seq<char>>>) -> Seq<Seq<char>>
    decreases items.len(),
{
    if items.len() == 0 {
        seq![]
    } else {
        match items.last() {
            Some(s) => string_items(items.drop_last()).push(s),
            None => string_items(items.drop_last()),
        }
    }
}

/// The allowlist a TOML text holds: the string elements of
/// `allowed_binds`, none when it is missing or not an array.
pub open spec fn spec_read_binds(text: Seq<char>) -> Result<Seq<Seq<char>>, Seq<char>> {
    match toml_binds_field(text) {
        Err(m) => Err(m),
        Ok(None) => Ok(seq![]),
        Ok(Some(items)) => Ok(string_items(items)),
    }
}

/// Reads the allowlist out of a TOML text.
pub fn read_binds(text: &str) -> (res: Result<Vec<String>, String>)
    ensures
        match spec_read_binds(text@) {
            Ok(l) => res matches Ok(v) && strs(v@) == l,
            Err(m) => res matches Err(e) && e@ == m,
        },
{
    match read_binds_field(text)? {
        None => {
            let v: Vec<String> = Vec::new();
            assert(strs(v@) =~= seq![]);
            Ok(v)
        },
        Some(items) => {
            let mut out: Vec<String> = Vec::new();
            let mut i: usize = 0;
            while i < items.len()
                invariant
                    i <= items@.len(),
                    strs(out@) == string_items(opt_strs(items@).subrange(0, i as int)),
                decreases items@.len() - i,
            {
                let ghost upto = opt_strs(items@).subrange(0, i + 1);
                assert(upto.drop_last() =~= opt_strs(items@).subrange(0, i as int));
                if let Some(s) = &items[i] {
                    let ghost before = out@;
                    out.push(s.clone());
                    assert(strs(out@) =~= strs(before).push(s@));
                }
                i = i + 1;
            }
            assert(opt_strs(items@).subrange(0, i as int) =~= opt_strs(items@));
            Ok(out)
        },
    }
}

/// Adds `path` unless it is already listed; true when the list changed.
pub fn allow_path(list: &mut Vec<String>, path: String) -> (changed: bool)
    ensures
        changed == !strs(old(list)@).contains(path@),
        strs(final(list)@) == if changed {
            strs(old(list)@).push(path@)
        } else {
            strs(old(list)@)
        },
{
    let mut i: usize = 0;
    while i < list.len()
        invariant
            i <= list@.len(),
            list@ == old(list)@,
            forall|k: int| 0 <= k < i ==> list@[k]@ != path@,
        decreases list@.len() - i,
    {
        if list[i] == path {
            assert(strs(list@)[i as int] == path@);
            return false;
        }
        i = i + 1;
    }
    proof {
        if strs(list@).contains(path@) {
            let k = choose|k: int| 0 <= k < strs(list@).len() && strs(list@)[k] == path@;
            assert(list@[k]@ == path@);
        }
    }
    let ghost before = list@;
    list.push(path);
    assert(strs(list@) =~= strs(before).push(path@));
    true
}

/// Every entry of `l` other than `p`, in order.
pub open spec fn without(l: Seq<Seq<char>>, p: Seq<char>) -> Seq<Seq<char>> {
    l.filter(|x: Seq<char>| x != p)
}

/// Removes every entry equal to `path`; true when the list changed.
pub fn deny_path(list: &mut Vec<String>, path: &str) -> (changed: bool)
    ensures
        strs(final(list)@) == without(strs(old(list)@), path@),
        changed == (strs(final(list)@).len() != strs(old(list)@).len()),
{
    let ghost src = strs(list@);
    let mut kept: Vec<String> = Vec::new();
    let mut i: usize = 0;
    let n = list.len();
    while i < n
        invariant
            i <= n,
            n == list@.len(),
            src == strs(list@),
            strs(kept@) == without(src.subrange(0, i as int), path@),
        decreases n - i,
    {
        let ghost upto = src.subrange(0, i + 1);
        assert(upto.drop_last() =~= src.subrange(0, i as int));
        reveal(Seq::filter);
        if !crate::text::str_eq(list[i].as_str(), path) {
            let ghost before = kept@;
            kept.push(list[i].clone());
            assert(strs(kept@) =~= strs(before).push(list@[i as int]@));
        }
        i = i + 1;
    }
    assert(src.subrange(0, n as int) =~= src);
    let changed = kept.len() != n;
    *list = kept;
    changed
}

/// Whether a bind change adds or removes a path.
pub enum BindChange {
    Allow(String),
    Deny(String),
}

/// The allowlist after a change, and whether it changed.
pub open spec fn spec_apply_change(l: Seq<Seq<char>>, change: BindChange) -> (Seq<Seq<char>>, bool) {
    match change {
        BindChange::Allow(p) => if l.contains(p@) {
            (l, false)
        } else {
            (l.push(p@), true)
        },
        BindChange::Deny(p) => (without(l, p@), without(l, p@).len() != l.len()),
    }
}

/// The new text of a `nub.toml` after a bind change, or `None` when the
/// allowlist is unchanged and nothing needs writing.
pub open spec fn spec_update_binds(text: Seq<char>, change: BindChange) -> Result<Option<Seq<char>>, Seq<char>> {
    match spec_read_binds(text) {
        Err(m) => Err(m),
        Ok(l) => {
            let (next, changed) = spec_apply_change(l, change);
            if !changed {
                Ok(None)
            } else {
                match toml_with_binds(text, next) {
                    Ok(t) => Ok(Some(t)),
                    Err(m) => Err(m),
                }
            }
        },
    }
}

/// Applies a bind change to the text of a `nub.toml`.
pub fn update_binds(text: &str, change: BindChange) -> (res: Result<Option<String>, String>)
    ensures
        match spec_update_binds(text@, change) {
            Ok(None) => res matches Ok(None),
            Ok(Some(t)) => res matches Ok(Some(r)) && r@ == t,
            Err(m) => res matches Err(e) && e@ == m,
        },
{
    let mut list = read_binds(text)?;
    let changed = match change {
        BindChange::Allow(p) => allow_path(&mut list, p),
        BindChange::Deny(p) => deny_path(&mut list, p.as_str()),
    };
    if !changed {
        return Ok(None);
    }
    let out = write_binds_field(text, &list)?;
    Ok(Some(out))
}

/// The message when a path to allow or deny does not exist.
pub fn missing_path_message(p: &str) -> (res: CliError)
    ensures
        res.0@ == "path `"@ + p@ + "` does not exist"@,
{
    let mut m = String::from_str("path `");
    m.append(p);
    m.append("` does not exist");
    CliError(m)
}

/// The config file `allow` and `deny` edit: the one found, else an error
/// (a sparse config written before `nub init` would surprise on the next
/// restart).
pub fn locate_config(found: Option<String>) -> (res: Result<String, CliError>)
    ensures
        match found {
            Some(p) => res matches Ok(q) && q == p,
            None => res matches Err(e) && e.0@ == "no nub.toml found; run `nub init` first"@,
        },
{
    match found {
        Some(p) => Ok(p),
        None => Err(CliError(String::from_str("no nub.toml found; run `nub init` first"))),
    }
}

/// Allowing a path that is already allowed changes nothing.
pub proof fn law_allow_idempotent(l: Seq<Seq<char>>, p: String)
    ensures
        ({
            let (once, _) = spec_apply_change(l, BindChange::Allow(p));
            let (twice, changed) = spec_apply_change(once, BindChange::Allow(p));
            twice == once && !changed
        }),
{
    let (once, _) = spec_apply_change(l, BindChange::Allow(p));
    if !l.contains(p@) {
        assert(once[once.len() - 1] == p@);
    }
}

/// Denying a path after allowing it leaves the list as denying it alone
/// would: the path is gone and every other entry stays in order.
pub proof fn law_deny_after_allow(l: Seq<Seq<char>>, p: String)
    ensures
        ({
            let (allowed, _) = spec_apply_change(l, BindChange::Allow(p));
            let (denied, _) = spec_apply_change(allowed, BindChange::Deny(p));
            denied == without(l, p@) && !denied.contains(p@)
        }),
{
    reveal(Seq::filter);
    let (allowed, _) = spec_apply_change(l, BindChange::Allow(p));
    if !l.contains(p@) {
        assert(allowed.drop_last() =~= l);
        assert(without(allowed, p@) =~= without(l, p@));
    }
    let d = without(allowed, p@);
    broadcast use vstd::seq_lib::group_filter_ensures;

    if d.contains(p@) {
        let k = choose|k: int| 0 <= k < d.len() && d[k] == p@;
        assert((|x: Seq<char>| x != p@)(d[k]));
    }
}

} // verus!
