//! Compose-style variable substitution: `$VAR`, `${VAR}`,
//! `${VAR:-default}`, `${VAR-default}`. `$$` escapes to a literal `$`.
//! Undefined variables without a default are an error rather than an
//! empty string.

use vstd::prelude::*;
use vstd::string::{StringExecFns, StringSliceAdditionalSpecFns};
use vstd::utf8::{decode_utf8, valid_utf8};

use crate::text::{chars_eq, slice_chars, to_chars, utf8_lossy, utf8_lossy_string, utf8_str};

verus! {

/// A substitution failure: the variable (or unterminated reference)
/// and what went wrong with it.
#[derive(Debug)]
pub struct SubstituteError {
    pub var: String,
    pub message: String,
}

impl SubstituteError {
    /// Rendered as `${<var>}: <message>`.
    pub fn to_message(&self) -> (res: String)
        ensures
            res@ == "${"@ + self.var@ + "}: "@ + self.message@,
    {
        let mut out = String::from_str("${");
        out.append(self.var.as_str());
        out.append("}: ");
        out.append(self.message.as_str());
        out
    }
}

/// The variables available to substitution, as (name, value) views.
pub open spec fn env_view(env: Seq<(String, String)>) -> Seq<(Seq<char>, Seq<char>)> {
    env.map_values(|p: (String, String)| (p.0@, p.1@))
}

/// The value bound to `k`: the first binding with that name.
pub open spec fn env_get(env: Seq<(Seq<char>, Seq<char>)>, k: Seq<char>) -> Option<Seq<char>>
    decreases env.len(),
{
    if env.len() == 0 {
        None
    } else if env[0].0 == k {
        Some(env[0].1)
    } else {
        env_get(env.drop_first(), k)
    }
}

/// The bytes decoded as UTF-8, or nothing when they are not valid UTF-8.
pub open spec fn utf8_or_empty(b: Seq<u8>) -> Seq<char> {
    if valid_utf8(b) {
        decode_utf8(b)
    } else {
        seq![]
    }
}

/// ASCII letter, digit, or underscore.
pub open spec fn is_ident_byte(b: u8) -> bool {
    (48 <= b && b <= 57) || (65 <= b && b <= 90) || (97 <= b && b <= 122) || b == 95
}

/// End of the identifier that starts at `i`.
pub open spec fn ident_end(b: Seq<u8>, i: int) -> int
    decreases b.len() - i,
{
    if 0 <= i < b.len() && is_ident_byte(b[i]) {
        ident_end(b, i + 1)
    } else {
        i
    }
}

/// Index of the first `}` at or after `i`.
pub open spec fn first_close(b: Seq<u8>, i: int) -> Option<int>
    decreases b.len() - i,
{
    if i < 0 || i >= b.len() {
        None
    } else if b[i] == 125 {
        Some(i)
    } else {
        first_close(b, i + 1)
    }
}

/// Index of the first `x` in `c` at or after `i`.
pub open spec fn first_index(c: Seq<char>, x: char, i: int) -> Option<int>
    decreases c.len() - i,
{
    if i < 0 || i >= c.len() {
        None
    } else if c[i] == x {
        Some(i)
    } else {
        first_index(c, x, i + 1)
    }
}

/// Index of the first `:-` in `c` at or after `i`.
pub open spec fn first_colon_dash(c: Seq<char>, i: int) -> Option<int>
    decreases c.len() - i,
{
    if i < 0 || i + 1 >= c.len() {
        None
    } else if c[i] == ':' && c[i + 1] == '-' {
        Some(i)
    } else {
        first_colon_dash(c, i + 1)
    }
}

/// `v`, or `d` when absent.
pub open spec fn or_default(v: Option<Seq<char>>, d: Seq<char>) -> Seq<char> {
    match v {
        Some(x) => x,
        None => d,
    }
}

/// The value of a braced reference body: `NAME:-default`,
/// `NAME-default`, or a bare `NAME` that must be set.
pub open spec fn spec_resolve_braced(inner: Seq<char>, env: Seq<(Seq<char>, Seq<char>)>) -> Result<
    Seq<char>,
    (Seq<char>, Seq<char>),
> {
    match first_colon_dash(inner, 0) {
        Some(k) => Ok(or_default(env_get(env, inner.subrange(0, k)), inner.subrange(k + 2, inner.len() as int))),
        None => match first_index(inner, '-', 0) {
            Some(k) => Ok(
                or_default(env_get(env, inner.subrange(0, k)), inner.subrange(k + 1, inner.len() as int)),
            ),
            None => match env_get(env, inner) {
                Some(v) => Ok(v),
                None => Err((inner, "is not set"@)),
            },
        },
    }
}

/// What the `$` at `i` expands to, and where scanning resumes.
pub open spec fn spec_step(b: Seq<u8>, i: int, env: Seq<(Seq<char>, Seq<char>)>) -> Result<
    (Seq<char>, int),
    (Seq<char>, Seq<char>),
> {
    if i + 1 >= b.len() {
        Ok((seq!['$'], i + 1))
    } else if b[i + 1] == 36 {
        Ok((seq!['$'], i + 2))
    } else if b[i + 1] == 123 {
        match first_close(b, i + 2) {
            None => Err((utf8_lossy(b.subrange(i, b.len() as int)), "missing closing brace"@)),
            Some(e) => match spec_resolve_braced(utf8_or_empty(b.subrange(i + 2, e)), env) {
                Err(x) => Err(x),
                Ok(v) => Ok((v, e + 1)),
            },
        }
    } else {
        let e = ident_end(b, i + 1);
        if e == i + 1 {
            Ok((seq!['$'], i + 1))
        } else {
            let name = utf8_or_empty(b.subrange(i + 1, e));
            match env_get(env, name) {
                Some(v) => Ok((v, e)),
                None => Err((name, "is not set"@)),
            }
        }
    }
}

/// Substitution of `b[i..]`, appended to `acc`. Bytes other than `$`
/// are copied through one character per byte.
pub open spec fn subst_acc(b: Seq<u8>, i: int, env: Seq<(Seq<char>, Seq<char>)>, acc: Seq<char>) -> Result<
    Seq<char>,
    (Seq<char>, Seq<char>),
>
    decreases b.len() - i,
{
    if i < 0 || i >= b.len() {
        Ok(acc)
    } else if b[i] != 36 {
        subst_acc(b, i + 1, env, acc.push(b[i] as char))
    } else {
        match spec_step(b, i, env) {
            Err(e) => Err(e),
            Ok((piece, next)) => if i < next <= b.len() {
                subst_acc(b, next, env, acc + piece)
            } else {
                Ok(acc)
            },
        }
    }
}

/// The substituted text of `input`, or the first failing reference.
pub open spec fn spec_substitute(input: Seq<u8>, env: Seq<(Seq<char>, Seq<char>)>) -> Result<
    Seq<char>,
    (Seq<char>, Seq<char>),
> {
    subst_acc(input, 0, env, seq![])
}

/// The value bound to `k` in `env`.
fn env_lookup<'a>(env: &'a [(String, String)], k: &[char]) -> (res: Option<&'a String>)
    ensures
        match env_get(env_view(env@), k@) {
            Some(v) => res matches Some(s) && s@ == v,
            None => res is None,
        },
{
    let ghost full = env_view(env@);
    let mut i: usize = 0;
    assert(full.subrange(0, full.len() as int) =~= full);
    while i < env.len()
        invariant
            i <= env@.len(),
            full == env_view(env@),
            env_get(full, k@) == env_get(full.subrange(i as int, full.len() as int), k@),
        decreases env@.len() - i,
    {
        let ghost rest = full.subrange(i as int, full.len() as int);
        assert(rest.drop_first() =~= full.subrange(i + 1, full.len() as int));
        assert(rest[0] == (env@[i as int].0@, env@[i as int].1@));
        let name = to_chars(env[i].0.as_str());
        if chars_eq(name.as_slice(), k) {
            return Some(&env[i].1);
        }
        i = i + 1;
    }
    None
}

/// `b` decoded as UTF-8, or empty when it is not valid UTF-8.
fn utf8_chars_or_empty(b: &[u8]) -> (res: Vec<char>)
    ensures
        res@ == utf8_or_empty(b@),
{
    match utf8_str(b) {
        Some(s) => to_chars(s),
        None => Vec::new(),
    }
}

/// Is `b` an ASCII letter, digit, or underscore?
fn is_ident_byte_exec(b: u8) -> (res: bool)
    ensures
        res == is_ident_byte(b),
{
    (48 <= b && b <= 57) || (65 <= b && b <= 90) || (97 <= b && b <= 122) || b == 95
}

/// End of the identifier starting at `start`.
fn identifier_end(bytes: &[u8], start: usize) -> (res: usize)
    requires
        start <= bytes@.len(),
    ensures
        res == ident_end(bytes@, start as int),
        start <= res <= bytes@.len(),
{
    let mut i = start;
    while i < bytes.len() && is_ident_byte_exec(bytes[i])
        invariant
            start <= i <= bytes@.len(),
            ident_end(bytes@, start as int) == ident_end(bytes@, i as int),
        decreases bytes@.len() - i,
    {
        i = i + 1;
    }
    i
}

/// The value of a braced reference body.
fn resolve_braced(inner: &[char], env: &[(String, String)]) -> (res: Result<String, SubstituteError>)
    ensures
        match spec_resolve_braced(inner@, env_view(env@)) {
            Ok(v) => res matches Ok(s) && s@ == v,
            Err((var, m)) => res matches Err(e) && e.var@ == var && e.message@ == m,
        },
{
    let n = inner.len();
    let mut k: usize = 0;
    while k < n && k + 1 < n && !(inner[k] == ':' && inner[k + 1] == '-')
        invariant
            k <= n,
            n == inner@.len(),
            first_colon_dash(inner@, 0) == first_colon_dash(inner@, k as int),
        decreases n - k,
    {
        k = k + 1;
    }
    if k < n && k + 1 < n {
        let name = slice_chars(inner, 0, k);
        return match env_lookup(env, name.as_slice()) {
            Some(v) => Ok(v.clone()),
            None => Ok(crate::text::from_chars(slice_chars(inner, k + 2, n).as_slice())),
        };
    }
    let mut d: usize = 0;
    while d < n && inner[d] != '-'
        invariant
            d <= n,
            n == inner@.len(),
            first_index(inner@, '-', 0) == first_index(inner@, '-', d as int),
        decreases n - d,
    {
        d = d + 1;
    }
    if d < n {
        let name = slice_chars(inner, 0, d);
        return match env_lookup(env, name.as_slice()) {
            Some(v) => Ok(v.clone()),
            None => Ok(crate::text::from_chars(slice_chars(inner, d + 1, n).as_slice())),
        };
    }
    match env_lookup(env, inner) {
        Some(v) => Ok(v.clone()),
        None => Err(
            SubstituteError {
                var: crate::text::from_chars(inner),
                message: String::from_str("is not set"),
            },
        ),
    }
}

/// Expands the `$` at `start`, appending the expansion to `out`.
/// Returns where scanning resumes.
fn consume_dollar(bytes: &[u8], start: usize, env: &[(String, String)], out: &mut String) -> (res: Result<
    usize,
    SubstituteError,
>)
    requires
        start < bytes.len(),
        bytes@[start as int] == 36,
    ensures
        match spec_step(bytes@, start as int, env_view(env@)) {
            Ok((piece, next)) => res == Ok::<usize, SubstituteError>(next as usize) && final(out)@ == old(
                out,
            )@ + piece && start < next <= bytes@.len(),
            Err((var, m)) => res matches Err(e) && e.var@ == var && e.message@ == m,
        },
{
    proof {
        reveal_strlit("$");
    }
    if bytes.len() - start <= 1 {
        out.push('$');
        assert(final(out)@ =~= old(out)@ + seq!['$']) by {
            assert(out@ =~= old(out)@ + seq!['$']);
        }
        return Ok(start + 1);
    }
    let next = bytes[start + 1];
    if next == 36 {
        out.push('$');
        assert(out@ =~= old(out)@ + seq!['$']);
        return Ok(start + 2);
    }
    if next == 123 {
        return consume_braced(bytes, start, env, out);
    }
    consume_bare(bytes, start, env, out)
}

/// Expands `${...}` starting at `start`.
fn consume_braced(bytes: &[u8], start: usize, env: &[(String, String)], out: &mut String) -> (res: Result<
    usize,
    SubstituteError,
>)
    requires
        start + 1 < bytes.len(),
        bytes@[start as int] == 36,
        bytes@[start + 1] == 123,
    ensures
        match spec_step(bytes@, start as int, env_view(env@)) {
            Ok((piece, next)) => res == Ok::<usize, SubstituteError>(next as usize) && final(out)@ == old(
                out,
            )@ + piece && start < next <= bytes@.len(),
            Err((var, m)) => res matches Err(e) && e.var@ == var && e.message@ == m,
        },
{
    let body_start = start + 2;
    let n = bytes.len();
    let mut end = body_start;
    while end < n && bytes[end] != 125
        invariant
            body_start <= end <= n,
            n == bytes@.len(),
            first_close(bytes@, body_start as int) == first_close(bytes@, end as int),
        decreases n - end,
    {
        end = end + 1;
    }
    if end >= n {
        let tail = vstd::slice::slice_subrange(bytes, start, n);
        return Err(
            SubstituteError { var: utf8_lossy_string(tail), message: String::from_str("missing closing brace") },
        );
    }
    let inner_bytes = vstd::slice::slice_subrange(bytes, body_start, end);
    let inner = utf8_chars_or_empty(inner_bytes);
    let value = resolve_braced(inner.as_slice(), env)?;
    out.append(value.as_str());
    Ok(end + 1)
}

/// Expands `$NAME` starting at `start`; a `$` not followed by an
/// identifier stays a literal `$`.
fn consume_bare(bytes: &[u8], start: usize, env: &[(String, String)], out: &mut String) -> (res: Result<
    usize,
    SubstituteError,
>)
    requires
        start + 1 < bytes.len(),
        bytes@[start as int] == 36,
        bytes@[start + 1] != 36,
        bytes@[start + 1] != 123,
    ensures
        match spec_step(bytes@, start as int, env_view(env@)) {
            Ok((piece, next)) => res == Ok::<usize, SubstituteError>(next as usize) && final(out)@ == old(
                out,
            )@ + piece && start < next <= bytes@.len(),
            Err((var, m)) => res matches Err(e) && e.var@ == var && e.message@ == m,
        },
{
    let name_start = start + 1;
    let end = identifier_end(bytes, name_start);
    if end == name_start {
        out.push('$');
        assert(out@ =~= old(out)@ + seq!['$']);
        return Ok(start + 1);
    }
    let name_bytes = vstd::slice::slice_subrange(bytes, name_start, end);
    let name = utf8_chars_or_empty(name_bytes);
    match env_lookup(env, name.as_slice()) {
        Some(v) => {
            out.append(v.as_str());
            Ok(end)
        },
        None => Err(
            SubstituteError {
                var: crate::text::from_chars(name.as_slice()),
                message: String::from_str("is not set"),
            },
        ),
    }
}

/// Substitutes every variable reference in `input` from `env`. Bytes
/// outside references are copied one character per byte.
pub fn substitute(input: &str, env: &[(String, String)]) -> (res: Result<String, SubstituteError>)
    ensures
        match spec_substitute(input.spec_bytes(), env_view(env@)) {
            Ok(o) => res matches Ok(s) && s@ == o,
            Err((var, m)) => res matches Err(e) && e.var@ == var && e.message@ == m,
        },
{
    let bytes = input.as_bytes();
    let ghost b = bytes@;
    let ghost e = env_view(env@);
    let mut out = String::new();
    let mut i: usize = 0;
    while i < bytes.len()
        invariant
            i <= b.len(),
            b == bytes@,
            b == input.spec_bytes(),
            e == env_view(env@),
            subst_acc(b, 0, e, seq![]) == subst_acc(b, i as int, e, out@),
        decreases b.len() - i,
    {
        if bytes[i] != 36 {
            out.push(bytes[i] as char);
            i = i + 1;
        } else {
            let ghost before = out@;
            match consume_dollar(bytes, i, env, &mut out) {
                Ok(next) => {
                    i = next;
                },
                Err(err) => {
                    return Err(err);
                },
            }
        }
    }
    Ok(out)
}

/// Substitution from byte `i` on copies plain bytes: with no `$` left,
/// the rest of an ASCII text is appended as is.
proof fn lemma_plain_tail(s: Seq<char>, b: Seq<u8>, i: int, env: Seq<(Seq<char>, Seq<char>)>, acc: Seq<char>)
    requires
        0 <= i <= s.len(),
        b.len() == s.len(),
        forall|k: int| 0 <= k < s.len() ==> #[trigger] b[k] == s[k] as u8 && (b[k] as char) == s[k] && s[k] != '$',
    ensures
        subst_acc(b, i, env, acc) == Ok::<Seq<char>, (Seq<char>, Seq<char>)>(acc + s.subrange(i, s.len() as int)),
    decreases s.len() - i,
{
    if i < s.len() {
        assert(b[i] != 36) by {
            assert(b[i] == s[i] as u8);
            assert((b[i] as char) == s[i]);
        }
        lemma_plain_tail(s, b, i + 1, env, acc.push(b[i] as char));
        assert(acc.push(b[i] as char) + s.subrange(i + 1, s.len() as int) =~= acc + s.subrange(i, s.len() as int));
    } else {
        assert(acc + s.subrange(i, s.len() as int) =~= acc);
    }
}

/// ASCII text without `$` comes out unchanged, whatever the environment.
pub proof fn law_plain_ascii_unchanged(s: Seq<char>, env: Seq<(Seq<char>, Seq<char>)>)
    requires
        vstd::utf8::is_ascii_chars(s),
        !s.contains('$'),
    ensures
        spec_substitute(vstd::utf8::encode_utf8(s), env) == Ok::<Seq<char>, (Seq<char>, Seq<char>)>(s),
{
    let b = vstd::utf8::encode_utf8(s);
    vstd::utf8::is_ascii_chars_encode_utf8(s);
    assert forall|k: int| 0 <= k < s.len() implies #[trigger] b[k] == s[k] as u8 && (b[k] as char) == s[k]
        && s[k] != '$' by {
        assert('\0' <= s[k] <= '\u{7f}');
        let c = s[k];
        assert((c as u32) < 128);
        assert(((c as u8) as char) == c);
        if s[k] == '$' {
            assert(s.contains('$'));
        }
    }
    lemma_plain_tail(s, b, 0, env, seq![]);
    assert(Seq::<char>::empty() + s.subrange(0, s.len() as int) =~= s);
}

/// ASCII letter, digit, or underscore, as a character.
pub open spec fn is_ident_char(c: char) -> bool {
    ('0' <= c && c <= '9') || ('A' <= c && c <= 'Z') || ('a' <= c && c <= 'z') || c == '_'
}

/// Plain bytes (no `$`) are copied one character each.
proof fn lemma_plain_run(
    b: Seq<u8>,
    s: Seq<char>,
    j: int,
    e: int,
    env: Seq<(Seq<char>, Seq<char>)>,
    acc: Seq<char>,
)
    requires
        0 <= j <= e <= b.len(),
        b.len() == s.len(),
        forall|k: int| j <= k < e ==> #[trigger] b[k] != 36 && (b[k] as char) == s[k],
    ensures
        subst_acc(b, j, env, acc) == subst_acc(b, e, env, acc + s.subrange(j, e)),
    decreases e - j,
{
    if j < e {
        assert(b[j] != 36 && (b[j] as char) == s[j]);
        lemma_plain_run(b, s, j + 1, e, env, acc.push(b[j] as char));
        assert(acc.push(b[j] as char) + s.subrange(j + 1, e) =~= acc + s.subrange(j, e));
    } else {
        assert(acc + s.subrange(j, e) =~= acc);
    }
}

/// An identifier that runs from `j` up to `e` ends at `e`.
proof fn lemma_ident_run(b: Seq<u8>, j: int, e: int)
    requires
        0 <= j <= e <= b.len(),
        forall|k: int| j <= k < e ==> is_ident_byte(#[trigger] b[k]),
        e == b.len() || !is_ident_byte(b[e]),
    ensures
        ident_end(b, j) == e,
    decreases e - j,
{
    if j < e {
        lemma_ident_run(b, j + 1, e);
    }
}

/// The first `}` from `j` on is at `e` when none comes before it.
proof fn lemma_close_at(b: Seq<u8>, j: int, e: int)
    requires
        0 <= j <= e < b.len(),
        forall|k: int| j <= k < e ==> #[trigger] b[k] != 125,
        b[e] == 125,
    ensures
        first_close(b, j) == Some(e),
    decreases e - j,
{
    if j < e {
        lemma_close_at(b, j + 1, e);
    }
}

/// Text without `:` has no `:-`.
proof fn lemma_no_colon_dash(c: Seq<char>, j: int)
    requires
        0 <= j,
        forall|k: int| 0 <= k < c.len() ==> #[trigger] c[k] != ':',
    ensures
        first_colon_dash(c, j) is None,
    decreases c.len() - j,
{
    if j + 1 < c.len() {
        assert(c[j] != ':');
        lemma_no_colon_dash(c, j + 1);
    }
}

/// Text without `x` has no index of `x`.
proof fn lemma_no_index(c: Seq<char>, x: char, j: int)
    requires
        0 <= j,
        forall|k: int| 0 <= k < c.len() ==> #[trigger] c[k] != x,
    ensures
        first_index(c, x, j) is None,
    decreases c.len() - j,
{
    if j < c.len() {
        assert(c[j] != x);
        lemma_no_index(c, x, j + 1);
    }
}

/// The UTF-8 bytes of ASCII text are its characters, one byte each.
proof fn lemma_ascii_bytes(s: Seq<char>)
    requires
        vstd::utf8::is_ascii_chars(s),
    ensures
        vstd::utf8::encode_utf8(s).len() == s.len(),
        forall|k: int| 0 <= k < s.len() ==> (#[trigger] vstd::utf8::encode_utf8(s)[k] as char) == s[k]
            && vstd::utf8::encode_utf8(s)[k] == s[k] as u8 && (s[k] as u32) < 128,
{
    vstd::utf8::is_ascii_chars_encode_utf8(s);
    let b = vstd::utf8::encode_utf8(s);
    assert forall|k: int| 0 <= k < s.len() implies (#[trigger] b[k] as char) == s[k] && b[k] == s[k] as u8 && (
    s[k] as u32) < 128 by {
        assert('\0' <= s[k] <= '\u{7f}');
        let c = s[k];
        assert((c as u32) < 128);
        assert(((c as u8) as char) == c);
    }
}

/// The bytes of an ASCII identifier decode back to it.
proof fn lemma_name_bytes(name: Seq<char>, b: Seq<u8>, from: int)
    requires
        vstd::utf8::is_ascii_chars(name),
        0 <= from,
        from + name.len() <= b.len(),
        forall|k: int| 0 <= k < name.len() ==> #[trigger] b[from + k] == name[k] as u8,
    ensures
        utf8_or_empty(b.subrange(from, from + name.len())) == name,
{
    vstd::utf8::is_ascii_chars_encode_utf8(name);
    assert(b.subrange(from, from + name.len()) =~= vstd::utf8::encode_utf8(name)) by {
        assert forall|k: int| 0 <= k < name.len() implies b.subrange(from, from + name.len())[k]
            == vstd::utf8::encode_utf8(name)[k] by {
            assert(b[from + k] == name[k] as u8);
        }
    }
    vstd::utf8::encode_utf8_valid_utf8(name);
    vstd::utf8::encode_utf8_decode_utf8(name);
}

/// `$NAME` expands exactly as `${NAME}` does: to the variable's value
/// when it is set, and to a "not set" error naming it when it is not. The
/// text around the reference is copied as is, and the name stops where
/// the identifier characters do.
pub proof fn law_bare_reference_expands(
    p: Seq<char>,
    name: Seq<char>,
    q: Seq<char>,
    env: Seq<(Seq<char>, Seq<char>)>,
)
    requires
        vstd::utf8::is_ascii_chars(p),
        vstd::utf8::is_ascii_chars(q),
        !p.contains('$'),
        !q.contains('$'),
        name.len() > 0,
        forall|k: int| 0 <= k < name.len() ==> is_ident_char(#[trigger] name[k]),
        q.len() == 0 || !is_ident_char(q[0]),
    ensures
        spec_substitute(vstd::utf8::encode_utf8(p + seq!['$'] + name + q), env) == spec_substitute(
            vstd::utf8::encode_utf8(p + seq!['$', '{'] + name + seq!['}'] + q),
            env,
        ),
        spec_substitute(vstd::utf8::encode_utf8(p + seq!['$'] + name + q), env) == match env_get(env, name) {
            Some(v) => Ok::<Seq<char>, (Seq<char>, Seq<char>)>(p + v + q),
            None => Err((name, "is not set"@)),
        },
{
    let n: int = name.len() as int;
    let i: int = p.len() as int;
    let s1 = p + seq!['$'] + name + q;
    let s2 = p + seq!['$', '{'] + name + seq!['}'] + q;
    assert(vstd::utf8::is_ascii_chars(name)) by {
        assert forall|k: int| 0 <= k < name.len() implies '\0' <= #[trigger] name[k] <= '\u{7f}' by {
            assert(is_ident_char(name[k]));
        }
    }
    assert(vstd::utf8::is_ascii_chars(s1));
    assert(vstd::utf8::is_ascii_chars(s2));
    lemma_ascii_bytes(s1);
    lemma_ascii_bytes(s2);
    let b1 = vstd::utf8::encode_utf8(s1);
    let b2 = vstd::utf8::encode_utf8(s2);
    // The prefix is plain text in both.
    assert forall|k: int| 0 <= k < i implies #[trigger] b1[k] != 36 && (b1[k] as char) == s1[k] by {
        assert(s1[k] == p[k]);
        if b1[k] == 36 {
            assert(p.contains('$'));
        }
    }
    assert forall|k: int| 0 <= k < i implies #[trigger] b2[k] != 36 && (b2[k] as char) == s2[k] by {
        assert(s2[k] == p[k]);
        if b2[k] == 36 {
            assert(p.contains('$'));
        }
    }
    lemma_plain_run(b1, s1, 0, i, env, seq![]);
    lemma_plain_run(b2, s2, 0, i, env, seq![]);
    assert(Seq::<char>::empty() + s1.subrange(0, i) =~= p);
    assert(Seq::<char>::empty() + s2.subrange(0, i) =~= p);
    // The name's bytes.
    assert forall|k: int| 0 <= k < n implies #[trigger] b1[i + 1 + k] == name[k] as u8 by {
        assert(s1[i + 1 + k] == name[k]);
    }
    assert forall|k: int| 0 <= k < n implies #[trigger] b2[i + 2 + k] == name[k] as u8 by {
        assert(s2[i + 2 + k] == name[k]);
    }
    assert forall|k: int| i + 1 <= k < i + 1 + n implies is_ident_byte(#[trigger] b1[k]) by {
        assert(b1[i + 1 + (k - i - 1)] == name[k - i - 1] as u8);
        assert(is_ident_char(name[k - i - 1]));
    }
    assert forall|k: int| i + 2 <= k < i + 2 + n implies #[trigger] b2[k] != 125 by {
        assert(b2[i + 2 + (k - i - 2)] == name[k - i - 2] as u8);
        assert(is_ident_char(name[k - i - 2]));
    }
    assert(b1[i] == 36 && b2[i] == 36 && b2[i + 1] == 123) by {
        assert(s1[i] == '$' && s2[i] == '$' && s2[i + 1] == '{');
    }
    assert(b2[i + 2 + n] == 125) by {
        assert(s2[i + 2 + n] == '}');
    }
    assert(b1[i + 1] != 36 && b1[i + 1] != 123) by {
        assert(b1[i + 1 + 0] == name[0] as u8);
        assert(is_ident_char(name[0]));
    }
    if q.len() > 0 {
        assert(s1[i + 1 + n] == q[0]);
        assert(!is_ident_byte(b1[i + 1 + n]));
    }
    lemma_ident_run(b1, i + 1, i + 1 + n);
    lemma_close_at(b2, i + 2, i + 2 + n);
    lemma_name_bytes(name, b1, i + 1);
    lemma_name_bytes(name, b2, i + 2);
    assert(forall|k: int| 0 <= k < name.len() ==> #[trigger] name[k] != ':' && name[k] != '-') by {
        assert forall|k: int| 0 <= k < name.len() implies #[trigger] name[k] != ':' && name[k] != '-' by {
            assert(is_ident_char(name[k]));
        }
    }
    lemma_no_colon_dash(name, 0);
    lemma_no_index(name, '-', 0);
    // The text after the reference is plain in both.
    let t1 = i + 1 + n;
    let t2 = i + 3 + n;
    assert forall|k: int| t1 <= k < b1.len() implies #[trigger] b1[k] != 36 && (b1[k] as char) == s1[k] by {
        assert(s1[k] == q[k - t1]);
        if b1[k] == 36 {
            assert(q.contains('$'));
        }
    }
    assert forall|k: int| t2 <= k < b2.len() implies #[trigger] b2[k] != 36 && (b2[k] as char) == s2[k] by {
        assert(s2[k] == q[k - t2]);
        if b2[k] == 36 {
            assert(q.contains('$'));
        }
    }
    assert(s1.subrange(t1, s1.len() as int) =~= q);
    assert(s2.subrange(t2, s2.len() as int) =~= q);
    match env_get(env, name) {
        Some(v) => {
            lemma_plain_run(b1, s1, t1, b1.len() as int, env, p + v);
            lemma_plain_run(b2, s2, t2, b2.len() as int, env, p + v);
        },
        None => {},
    }
}

} // verus!
