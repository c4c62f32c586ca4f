//! Answers to the confirmation prompts.

use vstd::prelude::*;

use crate::text::{to_chars, trim, trim_chars};

verus! {

/// The ASCII lower-case form of a string.
pub open spec fn ascii_lowercase(s: Seq<char>) -> Seq<char> {
    s.map_values(|c: char| crate::cli::token::ascii_lower(c))
}

/// `nub stack rm`'s prompt: `y` or `yes`, in any ASCII case, once trimmed.
pub open spec fn spec_is_yes(line: Seq<char>) -> bool {
    ascii_lowercase(trim(line)) == "y"@ || ascii_lowercase(trim(line)) == "yes"@
}

/// `nub uninstall`'s prompt: `y` or `Y`, once trimmed.
pub open spec fn spec_is_y(line: Seq<char>) -> bool {
    ascii_lowercase(trim(line)) == "y"@
}

/// The trimmed line in ASCII lower case.
fn lowered(line: &str) -> (res: Vec<char>)
    ensures
        res@ == ascii_lowercase(trim(line@)),
{
    let t = trim_chars(to_chars(line).as_slice());
    let mut out: Vec<char> = Vec::new();
    let mut i: usize = 0;
    while i < t.len()
        invariant
            i <= t@.len(),
            out@ == ascii_lowercase(t@.subrange(0, i as int)),
        decreases t@.len() - i,
    {
        let c = t[i];
        let l = if 'A' <= c && c <= 'Z' {
            ((c as u8) + 32) as char
        } else {
            c
        };
        out.push(l);
        assert(out@ =~= ascii_lowercase(t@.subrange(0, i + 1)));
        i = i + 1;
    }
    assert(t@.subrange(0, i as int) =~= t@);
    out
}

/// Whether a `[y/N]` answer accepts (`y` or `yes`).
pub fn is_yes(line: &str) -> (res: bool)
    ensures
        res == spec_is_yes(line@),
{
    let l = lowered(line);
    crate::text::chars_eq(l.as_slice(), to_chars("y").as_slice()) || crate::text::chars_eq(
        l.as_slice(),
        to_chars("yes").as_slice(),
    )
}

/// Whether a `[y/N]` answer accepts (`y` only).
pub fn is_y(line: &str) -> (res: bool)
    ensures
        res == spec_is_y(line@),
{
    let l = lowered(line);
    crate::text::chars_eq(l.as_slice(), to_chars("y").as_slice())
}

} // verus!
