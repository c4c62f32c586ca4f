//! Where `nub.toml` is looked for: the XDG config home, `./nub.toml`,
//! then `/etc/nub/config.toml`.

use vstd::prelude::*;
use vstd::string::StringExecFns;

use crate::client::engine::{first_set, join, join_path};
use crate::compose::wire::strs;

verus! {

/// The candidate config paths, in priority order.
pub open spec fn spec_auto_paths(config_home: Seq<char>) -> Seq<Seq<char>> {
    seq![join_path(config_home, "nub/nub.toml"@), "./nub.toml"@, "/etc/nub/config.toml"@]
}

/// The candidate config paths, in priority order.
pub fn auto_paths(config_home: &str) -> (res: Vec<String>)
    ensures
        strs(res@) == spec_auto_paths(config_home@),
{
    let mut v: Vec<String> = Vec::new();
    v.push(join(config_home, "nub/nub.toml"));
    v.push(String::from_str("./nub.toml"));
    v.push(String::from_str("/etc/nub/config.toml"));
    assert(strs(v@) =~= spec_auto_paths(config_home@));
    v
}

/// The first candidate that exists (`exists[i]` tells of `candidates[i]`),
/// or `None` when nub has never been configured on this host.
pub fn locate_path(candidates: &Vec<String>, exists: &Vec<bool>) -> (res: Option<String>)
    requires
        candidates@.len() == exists@.len(),
    ensures
        match first_set(exists@, 0) {
            Some(i) => res matches Some(p) && p@ == candidates@[i]@,
            None => res is None,
        },
{
    let mut i: usize = 0;
    while i < candidates.len()
        invariant
            i <= candidates@.len(),
            candidates@.len() == exists@.len(),
            first_set(exists@, 0) == first_set(exists@, i as int),
        decreases candidates@.len() - i,
    {
        if exists[i] {
            return Some(candidates[i].clone());
        }
        i = i + 1;
    }
    None
}

} // verus!
