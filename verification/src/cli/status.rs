//! `nub status`: the systemd line of the snapshot.

use vstd::prelude::*;

use super::install::{scope_label, spec_scope_label, UnitScope};
use super::restart::{active_state, spec_active_state};

verus! {

/// The systemd line's content: the installed unit's label and its state
/// as `systemctl is-active` printed it (`unknown` when the command could
/// not run); `None` when no unit is installed.
pub fn systemd_state(unit: Option<UnitScope>, is_active_stdout: Option<&[u8]>) -> (res: Option<(&'static str, String)>)
    ensures
        match unit {
            Some(s) => res matches Some(p) && p.0@ == spec_scope_label(s) && p.1@ == spec_active_state(
                match is_active_stdout {
                    Some(o) => Some(o@),
                    None => None,
                },
            ),
            None => res is None,
        },
{
    match unit {
        Some(s) => Some((scope_label(s), active_state(is_active_stdout))),
        None => None,
    }
}

} // verus!
