//! `nub restart` and `nub status`: which systemd unit is installed, and
//! what `systemctl is-active` said of it.

use vstd::prelude::*;
use vstd::string::StringExecFns;

use super::error::CliError;
use super::install::UnitScope;
use crate::text::{from_chars, to_chars, trim, trim_chars, utf8_lossy, utf8_lossy_string};

verus! {

/// The installed unit: the user-level one wins when both exist.
pub open spec fn spec_installed_unit(user_unit_exists: bool, system_unit_exists: bool) -> Option<UnitScope> {
    if user_unit_exists {
        Some(UnitScope::User)
    } else if system_unit_exists {
        Some(UnitScope::System)
    } else {
        None
    }
}

/// The installed unit, given whether each unit file exists.
pub fn installed_unit(user_unit_exists: bool, system_unit_exists: bool) -> (res: Option<UnitScope>)
    ensures
        res == spec_installed_unit(user_unit_exists, system_unit_exists),
{
    if user_unit_exists {
        Some(UnitScope::User)
    } else if system_unit_exists {
        Some(UnitScope::System)
    } else {
        None
    }
}

/// The unit `nub restart` restarts; refused cleanly when none exists.
pub fn detect_scope(user_unit_exists: bool, system_unit_exists: bool) -> (res: Result<UnitScope, CliError>)
    ensures
        match spec_installed_unit(user_unit_exists, system_unit_exists) {
            Some(s) => res matches Ok(t) && t == s,
            None => res matches Err(e) && e.0@ == "no nub systemd unit found; run `nub install systemd` first"@,
        },
{
    match installed_unit(user_unit_exists, system_unit_exists) {
        Some(s) => Ok(s),
        None => Err(CliError(String::from_str("no nub systemd unit found; run `nub install systemd` first"))),
    }
}

/// The unit's state as `systemctl is-active` printed it (trimmed), or
/// `unknown` when the command could not run.
pub open spec fn spec_active_state(stdout: Option<Seq<u8>>) -> Seq<char> {
    match stdout {
        Some(out) => trim(utf8_lossy(out)),
        None => "unknown"@,
    }
}

/// The unit's state from the output of `systemctl is-active`.
pub fn active_state(stdout: Option<&[u8]>) -> (res: String)
    ensures
        res@ == spec_active_state(
            match stdout {
                Some(o) => Some(o@),
                None => None,
            },
        ),
{
    match stdout {
        Some(out) => {
            let text = utf8_lossy_string(out);
            from_chars(trim_chars(to_chars(text.as_str()).as_slice()).as_slice())
        },
        None => String::from_str("unknown"),
    }
}

} // verus!
