//! `nub secret`: where secrets live and how a value read from input is
//! stored.

use vstd::prelude::*;

use vstd::string::StringExecFns;

use super::table::{column_width, pad_left, pad_right, push_padded_left, push_padded_right, width_of};
use crate::compose::wire::strs;
use crate::num::{decimal, format_u64};
use crate::text::{from_chars, slice_chars, to_chars};

verus! {

/// The secrets root: the configured directory, else the default one.
pub fn secrets_root(configured: Option<String>, default_dir: String) -> (res: String)
    ensures
        res == (match configured {
            Some(c) => c,
            None => default_dir,
        }),
{
    match configured {
        Some(c) => c,
        None => default_dir,
    }
}

/// `s` without one trailing `\n`.
pub open spec fn spec_strip_newline(s: Seq<char>) -> Seq<char> {
    if s.len() > 0 && s.last() == '\n' {
        s.drop_last()
    } else {
        s
    }
}

/// The value to store: what was read, without one trailing newline (the
/// one `echo` or an editor adds).
pub fn stored_value(input: &str) -> (res: String)
    ensures
        res@ == spec_strip_newline(input@),
{
    let c = to_chars(input);
    let n = c.len();
    if n > 0 && c[n - 1] == '\n' {
        let r = slice_chars(c.as_slice(), 0, n - 1);
        assert(r@ =~= c@.drop_last());
        from_chars(r.as_slice())
    } else {
        let r = slice_chars(c.as_slice(), 0, n);
        assert(r@ =~= c@);
        from_chars(r.as_slice())
    }
}

/// What `nub secret get` prints: the value, with a newline added where it
/// has none at its end.
pub fn shown_value(value: &str) -> (res: String)
    ensures
        res@ == if value@.len() > 0 && value@.last() == '\n' {
            value@
        } else {
            value@ + "\n"@
        },
{
    let c = to_chars(value);
    let n = c.len();
    let mut out = String::new();
    out.append(value);
    if !(n > 0 && c[n - 1] == '\n') {
        out.append("\n");
    }
    out
}

/// One secret in `nub secret list`.
pub struct SecretRow {
    pub name: String,
    pub size: u64,
    pub modified_at: String,
}

/// The secrets' names.
pub open spec fn secret_names(rows: Seq<SecretRow>) -> Seq<Seq<char>> {
    rows.map_values(|r: SecretRow| r.name@)
}

/// One line of the list: the name padded to `nw`, the size right-aligned
/// in 6 and followed by `B`, then the modification time.
pub open spec fn secret_line(nw: int, r: SecretRow) -> Seq<char> {
    pad_right(r.name@, nw) + "  "@ + pad_left(decimal(r.size as nat), 6) + "B  "@ + r.modified_at@
}

/// The lines of `nub secret list`, the name column as wide as the widest
/// name and at least 4 (an empty list prints `(no secrets)` instead).
pub open spec fn spec_secret_table(rows: Seq<SecretRow>) -> Seq<Seq<char>> {
    let nw = column_width(secret_names(rows), 4);
    rows.map_values(|r: SecretRow| secret_line(nw, r))
}

/// The lines of `nub secret list`.
pub fn secret_table(rows: &Vec<SecretRow>) -> (res: Vec<String>)
    ensures
        strs(res@) == spec_secret_table(rows@),
{
    let mut names: Vec<String> = Vec::new();
    let mut i: usize = 0;
    while i < rows.len()
        invariant
            i <= rows@.len(),
            strs(names@) == secret_names(rows@.subrange(0, i as int)),
        decreases rows@.len() - i,
    {
        let ghost nb = names@;
        names.push(rows[i].name.clone());
        assert(strs(names@) =~= secret_names(rows@.subrange(0, i + 1))) by {
            assert(strs(names@) =~= strs(nb).push(rows@[i as int].name@));
        }
        i = i + 1;
    }
    assert(rows@.subrange(0, i as int) =~= rows@);
    let nw = width_of(&names, 4);
    let ghost table = spec_secret_table(rows@);
    let mut out: Vec<String> = Vec::new();
    let mut k: usize = 0;
    while k < rows.len()
        invariant
            k <= rows@.len(),
            nw as int == column_width(secret_names(rows@), 4),
            table == spec_secret_table(rows@),
            strs(out@) == table.subrange(0, k as int),
        decreases rows@.len() - k,
    {
        let r = &rows[k];
        let mut l = String::new();
        push_padded_right(&mut l, r.name.as_str(), nw);
        l.append("  ");
        let size = format_u64(r.size);
        push_padded_left(&mut l, size.as_str(), 6);
        l.append("B  ");
        l.append(r.modified_at.as_str());
        assert(l@ =~= secret_line(nw as int, rows@[k as int]));
        let ghost before = out@;
        out.push(l);
        assert(strs(out@) =~= strs(before).push(l@));
        assert(table.subrange(0, k + 1) =~= table.subrange(0, k as int).push(table[k as int]));
        k = k + 1;
    }
    assert(table.subrange(0, rows@.len() as int) =~= table);
    out
}

} // verus!
