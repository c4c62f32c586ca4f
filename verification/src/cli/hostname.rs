//! The host's name: the default `id`, the audience of minted tokens, and
//! what replaces an unspecified listen address in connect URLs.

use vstd::prelude::*;
use vstd::string::StringExecFns;

use crate::text::{from_chars, to_chars, trim, trim_chars};

verus! {

/// The hostname from `/etc/hostname`, else `/proc/sys/kernel/hostname`
/// (each when readable), trimmed; `nub` when neither was readable or the
/// name is blank.
pub open spec fn spec_hostname(etc: Option<Seq<char>>, kernel: Option<Seq<char>>) -> Seq<char> {
    let read = match etc {
        Some(e) => Some(e),
        None => kernel,
    };
    match read {
        Some(t) => if trim(t).len() > 0 {
            trim(t)
        } else {
            "nub"@
        },
        None => "nub"@,
    }
}

/// Picks the hostname from the two files' contents.
pub fn hostname_from(etc: Option<&str>, kernel: Option<&str>) -> (res: String)
    ensures
        res@ == spec_hostname(
            match etc {
                Some(e) => Some(e@),
                None => None,
            },
            match kernel {
                Some(k) => Some(k@),
                None => None,
            },
        ),
{
    let read = match etc {
        Some(e) => Some(e),
        None => kernel,
    };
    match read {
        Some(t) => {
            let trimmed = trim_chars(to_chars(t).as_slice());
            if trimmed.len() > 0 {
                from_chars(trimmed.as_slice())
            } else {
                String::from_str("nub")
            }
        },
        None => String::from_str("nub"),
    }
}

} // verus!
