//! XDG path resolution and the per-resource defaults used when the TOML
//! config does not override them. The environment is read by the caller.

use vstd::prelude::*;
use vstd::string::StringExecFns;

use crate::client::engine::{join, join_path};

verus! {

/// `$XDG_CONFIG_HOME` if set, else `$HOME/.config`, else `.config`.
pub open spec fn spec_xdg_config_home(xdg: Option<Seq<char>>, home: Option<Seq<char>>) -> Seq<char> {
    match xdg {
        Some(x) => x,
        None => match home {
            Some(h) => join_path(h, ".config"@),
            None => ".config"@,
        },
    }
}

/// `$XDG_DATA_HOME` if set, else `$HOME/.local/share`, else
/// `.local/share`.
pub open spec fn spec_xdg_data_home(xdg: Option<Seq<char>>, home: Option<Seq<char>>) -> Seq<char> {
    match xdg {
        Some(x) => x,
        None => match home {
            Some(h) => join_path(h, ".local/share"@),
            None => ".local/share"@,
        },
    }
}

/// An optional string as characters.
pub open spec fn opt_chars(o: Option<&str>) -> Option<Seq<char>> {
    match o {
        Some(s) => Some(s@),
        None => None,
    }
}

/// The config home, from the values of `$XDG_CONFIG_HOME` and `$HOME`.
pub fn xdg_config_home(xdg: Option<&str>, home: Option<&str>) -> (res: String)
    ensures
        res@ == spec_xdg_config_home(opt_chars(xdg), opt_chars(home)),
{
    match xdg {
        Some(x) => String::from_str(x),
        None => match home {
            Some(h) => join(h, ".config"),
            None => String::from_str(".config"),
        },
    }
}

/// The data home, from the values of `$XDG_DATA_HOME` and `$HOME`.
pub fn xdg_data_home(xdg: Option<&str>, home: Option<&str>) -> (res: String)
    ensures
        res@ == spec_xdg_data_home(opt_chars(xdg), opt_chars(home)),
{
    match xdg {
        Some(x) => String::from_str(x),
        None => match home {
            Some(h) => join(h, ".local/share"),
            None => String::from_str(".local/share"),
        },
    }
}

/// Default dockerfiles directory: `<data home>/nub/dockerfiles`.
pub fn default_dockerfiles_dir(data_home: &str) -> (res: String)
    ensures
        res@ == join_path(data_home@, "nub/dockerfiles"@),
{
    join(data_home, "nub/dockerfiles")
}

/// Default stacks directory: `<data home>/nub/stacks`, one subdirectory
/// per stack with its manifest inside.
pub fn default_stacks_dir(data_home: &str) -> (res: String)
    ensures
        res@ == join_path(data_home@, "nub/stacks"@),
{
    join(data_home, "nub/stacks")
}

/// Default secrets directory: `<data home>/nub/secrets`, holding the age
/// `.identity` file and one `<name>.age` blob per secret.
pub fn default_secrets_dir(data_home: &str) -> (res: String)
    ensures
        res@ == join_path(data_home@, "nub/secrets"@),
{
    join(data_home, "nub/secrets")
}

/// Default issuer key path: `<data home>/nub/issuer.key` (PKCS#8,
/// written with mode 600).
pub fn default_issuer_key(data_home: &str) -> (res: String)
    ensures
        res@ == join_path(data_home@, "nub/issuer.key"@),
{
    join(data_home, "nub/issuer.key")
}

/// Default admin token path: `<data home>/nub/admin.jwt`, persisted at
/// first run and printed again on later starts so paired clients survive
/// a restart.
pub fn default_admin_jwt(data_home: &str) -> (res: String)
    ensures
        res@ == join_path(data_home@, "nub/admin.jwt"@),
{
    join(data_home, "nub/admin.jwt")
}

} // verus!
