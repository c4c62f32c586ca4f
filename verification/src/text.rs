//! Small string helpers shared by the parsers: conversions between
//! `str`/`String` and character vectors, and equality on `str`.

use vstd::prelude::*;
use vstd::std_specs::iter::IteratorSpec;
use vstd::utf8::{decode_utf8, valid_utf8};

verus! {

broadcast use vstd::string::group_string_axioms;

/// Appends one character to a `String`.
pub assume_specification[ String::push ](s: &mut String, ch: char)
    ensures
        final(s)@ == old(s)@.push(ch),
;

/// The characters of `s`, in order.
pub fn to_chars(s: &str) -> (res: Vec<char>)
    ensures
        res@ == s@,
{
    let mut out: Vec<char> = Vec::new();
    let mut it = s.chars();
    let ghost all = s@;
    loop
        invariant
            it.remaining() == all.subrange(out@.len() as int, all.len() as int),
            out@ == all.subrange(0, out@.len() as int),
            out@.len() <= all.len(),
            it.obeys_prophetic_iter_laws(),
            all == s@,
        ensures
            out@ == all,
        decreases all.len() - out@.len(),
    {
        match it.next() {
            Some(c) => {
                out.push(c);
            },
            None => {
                assert(all.subrange(out@.len() as int, all.len() as int).len() == 0);
                assert(out@ =~= all);
                break;
            },
        }
    }
    out
}

/// A `String` holding exactly the characters `cs`.
pub fn from_chars(cs: &[char]) -> (res: String)
    ensures
        res@ == cs@,
{
    let mut out = String::new();
    let mut i: usize = 0;
    while i < cs.len()
        invariant
            i <= cs@.len(),
            out@ == cs@.subrange(0, i as int),
        decreases cs@.len() - i,
    {
        out.push(cs[i]);
        i = i + 1;
    }
    out
}

/// Equality of two string slices.
pub fn str_eq(a: &str, b: &str) -> (res: bool)
    ensures
        res == (a@ == b@),
{
    a.to_owned() == b.to_owned()
}

/// ASCII whitespace as `char::is_ascii_whitespace` defines it.
pub open spec fn is_ascii_ws(c: char) -> bool {
    c == ' ' || c == '\t' || c == '\n' || c == '\x0C' || c == '\r'
}

/// Separator test: Unicode whitespace when `u`, else ASCII whitespace.
pub open spec fn is_sep(u: bool, c: char) -> bool {
    if u {
        is_unicode_ws(c)
    } else {
        is_ascii_ws(c)
    }
}

/// What `str::split_ascii_whitespace` yields.
pub open spec fn ws_tokens(s: Seq<char>) -> Seq<Seq<char>> {
    split_tokens(false, s)
}

/// What `str::split_whitespace` yields.
pub open spec fn unicode_tokens(s: Seq<char>) -> Seq<Seq<char>> {
    split_tokens(true, s)
}

/// The maximal runs of non-separator characters of `s`, left to right.
pub open spec fn split_tokens(u: bool, s: Seq<char>) -> Seq<Seq<char>>
    decreases s.len(),
{
    if s.len() == 0 {
        seq![]
    } else {
        let prev = split_tokens(u, s.drop_last());
        let c = s.last();
        if is_sep(u, c) {
            prev
        } else if s.len() >= 2 && !is_sep(u, s[s.len() - 2]) {
            prev.update(prev.len() - 1, prev.last().push(c))
        } else {
            prev.push(seq![c])
        }
    }
}

/// A sequence that ends in a non-whitespace character has at least one token.
pub proof fn lemma_ws_tokens_nonempty(u: bool, s: Seq<char>)
    requires
        s.len() > 0,
        !is_sep(u, s.last()),
    ensures
        split_tokens(u, s).len() > 0,
    decreases s.len(),
{
    let prev = split_tokens(u, s.drop_last());
    if s.len() >= 2 && !is_sep(u, s[s.len() - 2]) {
        assert(s.drop_last().last() == s[s.len() - 2]);
        lemma_ws_tokens_nonempty(u, s.drop_last());
    }
}

/// Is `c` ASCII whitespace?
pub fn is_ascii_ws_char(c: char) -> (res: bool)
    ensures
        res == is_ascii_ws(c),
{
    c == ' ' || c == '\t' || c == '\n' || c == '\x0C' || c == '\r'
}

/// The views of a vector of character vectors.
pub open spec fn views(v: Seq<Vec<char>>) -> Seq<Seq<char>> {
    v.map_values(|x: Vec<char>| x@)
}

/// Separator test on one character.
pub fn is_sep_char(u: bool, c: char) -> (res: bool)
    ensures
        res == is_sep(u, c),
{
    if u {
        is_unicode_ws_char(c)
    } else {
        is_ascii_ws_char(c)
    }
}

/// Splits `s` on runs of ASCII whitespace (`str::split_ascii_whitespace`).
pub fn split_ascii_ws(s: &[char]) -> (res: Vec<Vec<char>>)
    ensures
        views(res@) == ws_tokens(s@),
{
    split_on(false, s)
}

/// Splits `s` on runs of Unicode whitespace (`str::split_whitespace`).
pub fn split_unicode_ws(s: &[char]) -> (res: Vec<Vec<char>>)
    ensures
        views(res@) == unicode_tokens(s@),
{
    split_on(true, s)
}

/// Splits `s` on runs of separators, dropping empty pieces.
pub fn split_on(u: bool, s: &[char]) -> (res: Vec<Vec<char>>)
    ensures
        views(res@) == split_tokens(u, s@),
{
    let mut out: Vec<Vec<char>> = Vec::new();
    let mut cur: Vec<char> = Vec::new();
    let mut i: usize = 0;
    while i < s.len()
        invariant
            i <= s@.len(),
            cur@.len() > 0 ==> i > 0 && !is_sep(u, s@[i - 1]) && split_tokens(u, s@.subrange(0, i as int))
                == views(out@).push(cur@),
            cur@.len() == 0 ==> (i == 0 || is_sep(u, s@[i - 1])) && split_tokens(u, 
                s@.subrange(0, i as int),
            ) == views(out@),
        decreases s@.len() - i,
    {
        let c = s[i];
        let ghost pre = s@.subrange(0, i as int);
        let ghost now = s@.subrange(0, i + 1);
        assert(now.drop_last() =~= pre);
        assert(now.last() == c);
        if is_sep_char(u, c) {
            if cur.len() > 0 {
                let done = cur;
                out.push(done);
                cur = Vec::new();
                assert(views(out@) =~= split_tokens(u, pre));
            }
        } else {
            if cur.len() > 0 {
                assert(now[now.len() - 2] == s@[i - 1]);
                let ghost before = views(out@).push(cur@);
                cur.push(c);
                assert(split_tokens(u, now) =~= views(out@).push(cur@)) by {
                    assert(before.update(before.len() - 1, before.last().push(c)) =~= views(out@).push(
                        cur@,
                    ));
                }
            } else {
                cur.push(c);
                assert(cur@ =~= seq![c]);
                if i > 0 {
                    assert(now[now.len() - 2] == s@[i - 1]);
                }
            }
        }
        i = i + 1;
    }
    assert(s@.subrange(0, s@.len() as int) =~= s@);
    if cur.len() > 0 {
        out.push(cur);
        assert(views(out@) =~= split_tokens(u, s@));
    }
    out
}

/// Equality of two character slices.
pub fn chars_eq(a: &[char], b: &[char]) -> (res: bool)
    ensures
        res == (a@ == b@),
{
    if a.len() != b.len() {
        return false;
    }
    let mut i: usize = 0;
    while i < a.len()
        invariant
            i <= a@.len(),
            a@.len() == b@.len(),
            forall|j: int| 0 <= j < i ==> a@[j] == b@[j],
        decreases a@.len() - i,
    {
        if a[i] != b[i] {
            return false;
        }
        i = i + 1;
    }
    assert(a@ =~= b@);
    true
}

/// Index of the first occurrence of `c` in `s` at or after `from`.
pub fn find_char(s: &[char], c: char, from: usize) -> (res: Option<usize>)
    ensures
        match res {
            Some(i) => from <= i < s@.len() && s@[i as int] == c && forall|j: int|
                from <= j < i ==> s@[j] != c,
            None => forall|j: int| from <= j < s@.len() ==> s@[j] != c,
        },
{
    let mut i: usize = from;
    while i < s.len()
        invariant
            from <= i,
            forall|j: int| from <= j < i && j < s@.len() ==> s@[j] != c,
        decreases s@.len() - i,
    {
        if s[i] == c {
            return Some(i);
        }
        i = i + 1;
    }
    None
}

/// A copy of `s[from..to]`.
pub fn slice_chars(s: &[char], from: usize, to: usize) -> (res: Vec<char>)
    requires
        from <= to <= s@.len(),
    ensures
        res@ == s@.subrange(from as int, to as int),
{
    let mut out: Vec<char> = Vec::new();
    let mut i: usize = from;
    while i < to
        invariant
            from <= i <= to,
            to <= s@.len(),
            out@ == s@.subrange(from as int, i as int),
        decreases to - i,
    {
        out.push(s[i]);
        i = i + 1;
    }
    out
}

/// `w` is non-empty and holds no separator.
pub open spec fn is_word(u: bool, w: Seq<char>) -> bool {
    w.len() > 0 && forall|i: int| 0 <= i < w.len() ==> !is_sep(u, #[trigger] w[i])
}

/// A character that `s` lacks is in none of its tokens.
pub proof fn lemma_tokens_avoid(u: bool, s: Seq<char>, c: char)
    requires
        forall|i: int| 0 <= i < s.len() ==> s[i] != c,
    ensures
        forall|k: int, j: int|
            0 <= k < split_tokens(u, s).len() && 0 <= j < split_tokens(u, s)[k].len() ==> #[trigger] split_tokens(
                u,
                s,
            )[k][j] != c,
    decreases s.len(),
{
    if s.len() > 0 {
        lemma_tokens_avoid(u, s.drop_last(), c);
        let prev = split_tokens(u, s.drop_last());
        let t = split_tokens(u, s);
        let d = s.last();
        assert(d == s[s.len() - 1]);
        if is_sep(u, d) {
        } else if s.len() >= 2 && !is_sep(u, s[s.len() - 2]) {
            lemma_ws_tokens_nonempty(u, s.drop_last());
            assert(s.drop_last().last() == s[s.len() - 2]);
            assert forall|k: int, j: int| 0 <= k < t.len() && 0 <= j < t[k].len() implies #[trigger] t[k][j] != c by {
                if k < prev.len() - 1 {
                    assert(t[k] == prev[k]);
                } else if j < prev.last().len() {
                    assert(t[k][j] == prev[prev.len() - 1][j]);
                }
            }
        } else {
            assert forall|k: int, j: int| 0 <= k < t.len() && 0 <= j < t[k].len() implies #[trigger] t[k][j] != c by {
                if k < prev.len() {
                    assert(t[k] == prev[k]);
                }
            }
        }
    }
}

/// Every token is a word: non-empty, with no separator in it.
pub proof fn lemma_tokens_are_words(u: bool, s: Seq<char>)
    ensures
        forall|i: int| 0 <= i < split_tokens(u, s).len() ==> is_word(u, #[trigger] split_tokens(u, s)[i]),
    decreases s.len(),
{
    if s.len() > 0 {
        lemma_tokens_are_words(u, s.drop_last());
        let prev = split_tokens(u, s.drop_last());
        let c = s.last();
        if !is_sep(u, c) && s.len() >= 2 && !is_sep(u, s[s.len() - 2]) {
            lemma_ws_tokens_nonempty(u, s.drop_last());
            assert(s.drop_last().last() == s[s.len() - 2]);
            let w = prev.last().push(c);
            assert(is_word(u, prev[prev.len() - 1]));
            assert forall|j: int| 0 <= j < w.len() implies !is_sep(u, #[trigger] w[j]) by {
                if j < w.len() - 1 {
                    assert(w[j] == prev[prev.len() - 1][j]);
                }
            }
        }
    }
}

/// A word free of Unicode whitespace is free of ASCII whitespace.
pub proof fn lemma_unicode_word_is_ascii_word(w: Seq<char>)
    requires
        is_word(true, w),
    ensures
        is_word(false, w),
{
    assert forall|i: int| 0 <= i < w.len() implies !is_sep(false, #[trigger] w[i]) by {
        assert(!is_sep(true, w[i]));
    }
}

/// Appending a word after a token boundary appends exactly that token.
pub proof fn lemma_ws_tokens_append_word(u: bool, pre: Seq<char>, w: Seq<char>)
    requires
        pre.len() == 0 || is_sep(u, pre.last()),
        is_word(u, w),
    ensures
        split_tokens(u, pre + w) == split_tokens(u, pre).push(w),
    decreases w.len(),
{
    let s = pre + w;
    assert(s.drop_last() =~= pre + w.drop_last());
    assert(s.last() == w.last());
    if w.len() == 1 {
        assert(pre + w.drop_last() =~= pre);
        assert(w =~= seq![w.last()]);
        if pre.len() > 0 {
            assert(s[s.len() - 2] == pre.last());
        }
    } else {
        let w2 = w.drop_last();
        assert(w2[w2.len() - 1] == w[w.len() - 2]);
        lemma_ws_tokens_append_word(u, pre, w2);
        assert(s[s.len() - 2] == w[w.len() - 2]);
        let prev = split_tokens(u, pre).push(w2);
        assert(prev.update(prev.len() - 1, prev.last().push(w.last())) =~= split_tokens(u, pre).push(w)) by {
            assert(w2.push(w.last()) =~= w);
        }
    }
}

/// A space after some text ends the current token.
pub proof fn lemma_ws_tokens_space(u: bool, pre: Seq<char>)
    ensures
        split_tokens(u, pre + seq![' ']) == split_tokens(u, pre),
{
    let s = pre + seq![' '];
    assert(s.drop_last() =~= pre);
}

/// Unicode `White_Space`, as `char::is_whitespace` defines it.
pub open spec fn is_unicode_ws(c: char) -> bool {
    ('\u{9}' <= c && c <= '\u{d}') || c == ' ' || c == '\u{85}' || c == '\u{a0}' || c == '\u{1680}'
        || ('\u{2000}' <= c && c <= '\u{200a}') || c == '\u{2028}' || c == '\u{2029}' || c == '\u{202f}'
        || c == '\u{205f}' || c == '\u{3000}'
}

/// `s` without its leading whitespace.
pub open spec fn trim_start(s: Seq<char>) -> Seq<char>
    decreases s.len(),
{
    if s.len() > 0 && is_unicode_ws(s[0]) {
        trim_start(s.drop_first())
    } else {
        s
    }
}

/// `s` without its trailing whitespace.
pub open spec fn trim_end(s: Seq<char>) -> Seq<char>
    decreases s.len(),
{
    if s.len() > 0 && is_unicode_ws(s.last()) {
        trim_end(s.drop_last())
    } else {
        s
    }
}

/// Text that neither starts nor ends with whitespace is its own trim.
pub proof fn lemma_trim_without_ws(s: Seq<char>)
    requires
        s.len() > 0 ==> !is_unicode_ws(s[0]) && !is_unicode_ws(s.last()),
    ensures
        trim(s) == s,
{
}

/// `s` without leading and trailing whitespace (`str::trim`).
pub open spec fn trim(s: Seq<char>) -> Seq<char> {
    trim_end(trim_start(s))
}

/// Is `c` Unicode whitespace?
pub fn is_unicode_ws_char(c: char) -> (res: bool)
    ensures
        res == is_unicode_ws(c),
{
    ('\u{9}' <= c && c <= '\u{d}') || c == ' ' || c == '\u{85}' || c == '\u{a0}' || c == '\u{1680}'
        || ('\u{2000}' <= c && c <= '\u{200a}') || c == '\u{2028}' || c == '\u{2029}' || c == '\u{202f}'
        || c == '\u{205f}' || c == '\u{3000}'
}

/// `s` with leading and trailing whitespace removed.
pub fn trim_chars(s: &[char]) -> (res: Vec<char>)
    ensures
        res@ == trim(s@),
{
    let n = s.len();
    let mut lo: usize = 0;
    assert(s@.subrange(0, n as int) =~= s@);
    while lo < n && is_unicode_ws_char(s[lo])
        invariant
            lo <= n,
            n == s@.len(),
            trim_start(s@) == trim_start(s@.subrange(lo as int, n as int)),
        decreases n - lo,
    {
        let ghost t = s@.subrange(lo as int, n as int);
        assert(t.drop_first() =~= s@.subrange(lo + 1, n as int));
        lo = lo + 1;
    }
    let ghost mid = s@.subrange(lo as int, n as int);
    assert(trim_start(mid) == mid);
    let mut hi: usize = n;
    while hi > lo && is_unicode_ws_char(s[hi - 1])
        invariant
            lo <= hi <= n,
            n == s@.len(),
            mid == s@.subrange(lo as int, n as int),
            trim_end(mid) == trim_end(s@.subrange(lo as int, hi as int)),
        decreases hi - lo,
    {
        let ghost t = s@.subrange(lo as int, hi as int);
        assert(t.drop_last() =~= s@.subrange(lo as int, hi - 1));
        hi = hi - 1;
    }
    slice_chars(s, lo, hi)
}

/// `std::str::from_utf8`, with the error dropped: the bytes as a string
/// slice exactly when they are valid UTF-8, decoded as UTF-8 defines.
#[verifier::external_body]
pub(crate) fn utf8_str(b: &[u8]) -> (res: Option<&str>)
    ensures
        res is Some <==> valid_utf8(b@),
        res matches Some(s) ==> s@ == decode_utf8(b@),
{
    std::str::from_utf8(b).ok()
}

/// The characters `String::from_utf8_lossy` makes of `b`.
pub uninterp spec fn utf8_lossy(b: Seq<u8>) -> Seq<char>;

/// `String::from_utf8_lossy`: invalid sequences become U+FFFD; valid
/// input is decoded unchanged.
#[verifier::external_body]
pub(crate) fn utf8_lossy_string(b: &[u8]) -> (res: String)
    ensures
        res@ == utf8_lossy(b@),
        valid_utf8(b@) ==> res@ == decode_utf8(b@),
{
    String::from_utf8_lossy(b).into_owned()
}

/// The pieces of `s` between occurrences of `c`, empty pieces included
/// (what `str::split` with a character yields).
pub open spec fn split_char(s: Seq<char>, c: char) -> Seq<Seq<char>>
    decreases s.len(),
{
    if s.len() == 0 {
        seq![seq![]]
    } else {
        let prev = split_char(s.drop_last(), c);
        if s.last() == c {
            prev.push(seq![])
        } else {
            prev.update(prev.len() - 1, prev.last().push(s.last()))
        }
    }
}

/// `split_char` always yields at least one piece.
pub proof fn lemma_split_char_nonempty(s: Seq<char>, c: char)
    ensures
        split_char(s, c).len() >= 1,
    decreases s.len(),
{
    if s.len() > 0 {
        lemma_split_char_nonempty(s.drop_last(), c);
    }
}

/// A piece without `c` splits into itself.
pub proof fn lemma_split_char_none(s: Seq<char>, c: char)
    requires
        !s.contains(c),
    ensures
        split_char(s, c) == seq![s],
    decreases s.len(),
{
    if s.len() > 0 {
        assert(!s.drop_last().contains(c)) by {
            if s.drop_last().contains(c) {
                let k = choose|k: int| 0 <= k < s.drop_last().len() && s.drop_last()[k] == c;
                assert(s[k] == c);
            }
        }
        lemma_split_char_none(s.drop_last(), c);
        assert(s.last() != c) by {
            assert(s[s.len() - 1] == s.last());
        }
        assert(s.drop_last().push(s.last()) =~= s);
    } else {
        assert(s =~= seq![]);
    }
}

/// Splitting `a`, `c`, `b` at `c` gives the pieces of `a` followed by the
/// pieces of `b`.
pub proof fn lemma_split_char_concat(a: Seq<char>, b: Seq<char>, c: char)
    ensures
        split_char(a + seq![c] + b, c) == split_char(a, c) + split_char(b, c),
    decreases b.len(),
{
    let s = a + seq![c] + b;
    if b.len() == 0 {
        assert(s.drop_last() =~= a);
        assert(split_char(b, c) == seq![Seq::<char>::empty()]);
        assert(split_char(s, c) =~= split_char(a, c) + split_char(b, c));
    } else {
        let b1 = b.drop_last();
        assert(s.drop_last() =~= a + seq![c] + b1);
        assert(s.last() == b.last());
        lemma_split_char_concat(a, b1, c);
        lemma_split_char_nonempty(b1, c);
        lemma_split_char_nonempty(a, c);
        let pa = split_char(a, c);
        let pb = split_char(b1, c);
        if b.last() == c {
            assert(split_char(s, c) =~= (pa + pb).push(seq![]));
            assert(split_char(b, c) == pb.push(seq![]));
            assert((pa + pb).push(seq![]) =~= pa + pb.push(seq![]));
        } else {
            let whole = pa + pb;
            assert(split_char(s, c) == whole.update(whole.len() - 1, whole.last().push(b.last())));
            assert(split_char(b, c) == pb.update(pb.len() - 1, pb.last().push(b.last())));
            assert(whole.last() == pb.last());
            assert(whole.update(whole.len() - 1, whole.last().push(b.last())) =~= pa + pb.update(
                pb.len() - 1,
                pb.last().push(b.last()),
            ));
        }
    }
}

/// Splits `s` at every `c`.
pub fn split_chars(s: &[char], c: char) -> (res: Vec<Vec<char>>)
    ensures
        views(res@) == split_char(s@, c),
        res@.len() >= 1,
{
    let mut out: Vec<Vec<char>> = Vec::new();
    let mut cur: Vec<char> = Vec::new();
    let mut i: usize = 0;
    while i < s.len()
        invariant
            i <= s@.len(),
            split_char(s@.subrange(0, i as int), c) == views(out@).push(cur@),
        decreases s@.len() - i,
    {
        let ghost pre = s@.subrange(0, i as int);
        let ghost now = s@.subrange(0, i + 1);
        assert(now.drop_last() =~= pre);
        assert(now.last() == s@[i as int]);
        proof {
            lemma_split_char_nonempty(pre, c);
        }
        if s[i] == c {
            let done = cur;
            out.push(done);
            cur = Vec::new();
            assert(views(out@).push(cur@) =~= split_char(pre, c).push(seq![]));
        } else {
            let ghost before = views(out@).push(cur@);
            cur.push(s[i]);
            assert(views(out@).push(cur@) =~= before.update(before.len() - 1, before.last().push(s@[i as int])));
        }
        i = i + 1;
    }
    assert(s@.subrange(0, s@.len() as int) =~= s@);
    out.push(cur);
    out
}

/// `s` starts with `p`.
pub open spec fn starts_with(s: Seq<char>, p: Seq<char>) -> bool {
    p.len() <= s.len() && s.subrange(0, p.len() as int) == p
}

/// Does `s` start with `p`?
pub fn chars_start_with(s: &[char], p: &[char]) -> (res: bool)
    ensures
        res == starts_with(s@, p@),
{
    if p.len() > s.len() {
        return false;
    }
    let head = slice_chars(s, 0, p.len());
    chars_eq(head.as_slice(), p)
}

} // verus!
