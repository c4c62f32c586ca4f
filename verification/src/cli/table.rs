//! Column layout for the listings `nub stack ls` and `nub secret list`
//! print: a column is as wide as its widest entry, counted in UTF-8 bytes,
//! and entries are padded with spaces, counted in characters, as `{:<w$}`
//! and `{:>w$}` do.

use vstd::prelude::*;
use vstd::string::{StringExecFns, StringSliceAdditionalSpecFns};
use vstd::utf8::encode_utf8;

verus! {

/// `n` spaces.
pub open spec fn spaces(n: int) -> Seq<char>
    decreases n,
{
    if n <= 0 {
        seq![]
    } else {
        spaces(n - 1).push(' ')
    }
}

/// `s` padded on the right to `w` characters (`{:<w$}`).
pub open spec fn pad_right(s: Seq<char>, w: int) -> Seq<char> {
    s + spaces(w - s.len())
}

/// `s` padded on the left to `w` characters (`{:>w$}`).
pub open spec fn pad_left(s: Seq<char>, w: int) -> Seq<char> {
    spaces(w - s.len()) + s
}

/// Appends `n` spaces.
pub fn push_spaces(out: &mut String, n: usize)
    ensures
        final(out)@ == old(out)@ + spaces(n as int),
{
    let mut i: usize = 0;
    while i < n
        invariant
            i <= n,
            out@ == old(out)@ + spaces(i as int),
        decreases n - i,
    {
        out.push(' ');
        assert(spaces(i + 1) == spaces(i as int).push(' '));
        assert(out@ =~= old(out)@ + spaces(i + 1));
        i = i + 1;
    }
}

/// The number of characters of `s`.
pub fn char_count(s: &str) -> (res: usize)
    ensures
        res == s@.len(),
{
    crate::text::to_chars(s).len()
}

/// Appends `s` padded on the right to `w` characters.
pub fn push_padded_right(out: &mut String, s: &str, w: usize)
    ensures
        final(out)@ == old(out)@ + pad_right(s@, w as int),
{
    let n = char_count(s);
    out.append(s);
    if n < w {
        push_spaces(out, w - n);
    } else {
        assert(spaces(w - n) =~= Seq::<char>::empty());
        assert(out@ =~= old(out)@ + pad_right(s@, w as int));
    }
    assert(out@ =~= old(out)@ + pad_right(s@, w as int));
}

/// Appends `s` padded on the left to `w` characters.
pub fn push_padded_left(out: &mut String, s: &str, w: usize)
    ensures
        final(out)@ == old(out)@ + pad_left(s@, w as int),
{
    let n = char_count(s);
    if n < w {
        push_spaces(out, w - n);
    } else {
        assert(spaces(w - n) =~= Seq::<char>::empty());
    }
    out.append(s);
    assert(out@ =~= old(out)@ + pad_left(s@, w as int));
}

/// The widest entry, in UTF-8 bytes, and at least `floor`.
pub open spec fn column_width(entries: Seq<Seq<char>>, floor: int) -> int
    decreases entries.len(),
{
    if entries.len() == 0 {
        floor
    } else {
        let rest = column_width(entries.drop_last(), floor);
        let here = (encode_utf8(entries.last()).len() as usize) as int;
        if here > rest {
            here
        } else {
            rest
        }
    }
}

/// The widest entry, in UTF-8 bytes, and at least `floor`.
pub fn width_of(entries: &Vec<String>, floor: usize) -> (res: usize)
    ensures
        res == column_width(crate::compose::wire::strs(entries@), floor as int),
{
    let ghost es = crate::compose::wire::strs(entries@);
    let mut w = floor;
    let mut i: usize = 0;
    while i < entries.len()
        invariant
            i <= entries@.len(),
            es == crate::compose::wire::strs(entries@),
            w == column_width(es.subrange(0, i as int), floor as int),
        decreases entries@.len() - i,
    {
        let ghost up = es.subrange(0, i + 1);
        assert(up.drop_last() =~= es.subrange(0, i as int));
        assert(up.last() == entries@[i as int]@);
        let n = entries[i].as_str().len();
        if n > w {
            w = n;
        }
        i = i + 1;
    }
    assert(es.subrange(0, i as int) =~= es);
    w
}

} // verus!
