//! `nub token`: what a minted token carries. The scope claim comes from
//! `--scope` or `--preset`, the lifetime from `--expires`.

use vstd::prelude::*;
use vstd::string::StringExecFns;

use super::error::CliError;
use crate::auth::issuer::Issuer;
use crate::auth::jwt::Claims;
use crate::auth::scope::presets::{is_read_scope, lemma_readonly_is_all_reads, DEPLOY, OPERATOR, READONLY};
use crate::auth::scope::types::{scope_chars, Scope};
use crate::auth::scope::validate::{
    commas_as_spaces, invalid_tokens, join_scopes, join_words, law_join_scopes_validates, lemma_comma_free_tokens,
    lemma_join_words_comma_free, lemma_join_words_tokens, scope_string_tokens, spec_join_scopes, string_views,
    validate_string,
};
use crate::compose::wire::strs;
use crate::num::{decimal, int_parse_error_message, int_parse_error_text, parse_i64, spec_parse_i64};
use crate::text::{
    from_chars, lemma_tokens_are_words, lemma_tokens_avoid, lemma_unicode_word_is_ascii_word, slice_chars, split_unicode_ws, to_chars,
    trim, trim_chars, unicode_tokens, views, ws_tokens,
};

verus! {

/// The scope claim a preset expands to.
pub open spec fn spec_preset(name: Seq<char>) -> Result<Seq<char>, Seq<char>> {
    if name == "admin"@ {
        Ok("*"@)
    } else if name == "operator"@ {
        Ok(spec_join_scopes(OPERATOR@))
    } else if name == "deploy"@ {
        Ok(spec_join_scopes(DEPLOY@))
    } else if name == "readonly"@ || name == "read-only"@ {
        Ok(spec_join_scopes(READONLY@))
    } else {
        Err("unknown preset `"@ + name + "`. Valid: admin, operator, deploy, readonly"@)
    }
}

/// Expands a preset name into its scope claim.
pub fn preset_to_scope_string(name: &str) -> (res: Result<String, CliError>)
    ensures
        match spec_preset(name@) {
            Ok(s) => res matches Ok(r) && r@ == s,
            Err(m) => res matches Err(e) && e.0@ == m,
        },
{
    if crate::text::str_eq(name, "admin") {
        let r = String::from_str("*");
        Ok(r)
    } else if crate::text::str_eq(name, "operator") {
        Ok(join_scopes(&OPERATOR))
    } else if crate::text::str_eq(name, "deploy") {
        Ok(join_scopes(&DEPLOY))
    } else if crate::text::str_eq(name, "readonly") || crate::text::str_eq(name, "read-only") {
        Ok(join_scopes(&READONLY))
    } else {
        let mut m = String::from_str("unknown preset `");
        m.append(name);
        m.append("`. Valid: admin, operator, deploy, readonly");
        Err(CliError(m))
    }
}

/// The entries of a `--scope` argument: separated by whitespace or
/// commas, empty entries dropped.
pub open spec fn scope_arg_tokens(s: Seq<char>) -> Seq<Seq<char>> {
    unicode_tokens(commas_as_spaces(s))
}

/// `words` joined by `sep`.
pub open spec fn join_sep(words: Seq<Seq<char>>, sep: Seq<char>) -> Seq<char>
    decreases words.len(),
{
    if words.len() == 0 {
        seq![]
    } else if words.len() == 1 {
        words[0]
    } else {
        join_sep(words.drop_last(), sep) + sep + words.last()
    }
}

/// Joins strings with `sep`.
pub fn join_strings(words: &Vec<String>, sep: &str) -> (res: String)
    ensures
        res@ == join_sep(strs(words@), sep@),
{
    let mut out = String::new();
    let mut i: usize = 0;
    while i < words.len()
        invariant
            i <= words@.len(),
            out@ == join_sep(strs(words@).subrange(0, i as int), sep@),
        decreases words@.len() - i,
    {
        let ghost upto = strs(words@).subrange(0, i + 1);
        assert(upto.drop_last() =~= strs(words@).subrange(0, i as int));
        assert(upto.last() == words@[i as int]@);
        if i > 0 {
            out.append(sep);
        }
        out.append(words[i].as_str());
        i = i + 1;
    }
    assert(strs(words@).subrange(0, i as int) =~= strs(words@));
    out
}

/// The scope claim `nub token mint` embeds: the preset's when one is
/// named, else the `--scope` entries joined by single spaces (which must
/// be non-empty and valid), else the `admin` preset.
pub open spec fn spec_resolve_scope(scope_arg: Option<Seq<char>>, preset_arg: Option<Seq<char>>) -> Result<
    Seq<char>,
    Seq<char>,
> {
    match preset_arg {
        Some(name) => spec_preset(name),
        None => match scope_arg {
            Some(raw) => {
                let toks = scope_arg_tokens(raw);
                if toks.len() == 0 {
                    Err("--scope was empty"@)
                } else if invalid_tokens(toks).len() > 0 {
                    Err("unknown scope(s): "@ + join_sep(invalid_tokens(toks), ", "@)
                        + ". Run `nub token scopes` for the valid set."@)
                } else {
                    Ok(join_words(toks))
                }
            },
            None => spec_preset("admin"@),
        },
    }
}

/// An optional string as characters.
pub open spec fn opt_view(o: Option<&str>) -> Option<Seq<char>> {
    match o {
        Some(s) => Some(s@),
        None => None,
    }
}

/// Joins character vectors with single spaces.
fn join_words_exec(words: &Vec<Vec<char>>) -> (res: String)
    ensures
        res@ == join_words(views(words@)),
{
    let mut out = String::new();
    let mut i: usize = 0;
    while i < words.len()
        invariant
            i <= words@.len(),
            out@ == join_words(views(words@).subrange(0, i as int)),
        decreases words@.len() - i,
    {
        let ghost upto = views(words@).subrange(0, i + 1);
        assert(upto.drop_last() =~= views(words@).subrange(0, i as int));
        assert(upto.last() == words@[i as int]@);
        if i > 0 {
            out.push(' ');
        }
        let w = from_chars(words[i].as_slice());
        out.append(w.as_str());
        proof {
            if i == 0 {
                assert(views(words@).subrange(0, 0) =~= Seq::<Seq<char>>::empty());
            }
        }
        i = i + 1;
    }
    assert(views(words@).subrange(0, i as int) =~= views(words@));
    out
}

/// Resolves `--scope` / `--preset` into the scope claim.
pub fn resolve_scope(scope_arg: Option<&str>, preset_arg: Option<&str>) -> (res: Result<String, CliError>)
    ensures
        match spec_resolve_scope(opt_view(scope_arg), opt_view(preset_arg)) {
            Ok(s) => res matches Ok(r) && r@ == s,
            Err(m) => res matches Err(e) && e.0@ == m,
        },
{
    if let Some(name) = preset_arg {
        return preset_to_scope_string(name);
    }
    match scope_arg {
        None => preset_to_scope_string("admin"),
        Some(raw) => {
            let chars = to_chars(raw);
            let mut mapped: Vec<char> = Vec::new();
            let mut i: usize = 0;
            while i < chars.len()
                invariant
                    i <= chars@.len(),
                    mapped@ == commas_as_spaces(chars@.subrange(0, i as int)),
                decreases chars@.len() - i,
            {
                let c = chars[i];
                mapped.push(
                    if c == ',' {
                        ' '
                    } else {
                        c
                    },
                );
                assert(mapped@ =~= commas_as_spaces(chars@.subrange(0, i + 1)));
                i = i + 1;
            }
            assert(chars@.subrange(0, i as int) =~= chars@);
            let toks = split_unicode_ws(mapped.as_slice());
            let ghost ts = views(toks@);
            assert(ts == scope_arg_tokens(raw@));
            if toks.len() == 0 {
                return Err(CliError(String::from_str("--scope was empty")));
            }
            let normalized = join_words_exec(&toks);
            proof {
                lemma_scope_arg_normalized(raw@);
            }
            match validate_string(normalized.as_str()) {
                Ok(()) => Ok(normalized),
                Err(bad) => {
                    let mut m = String::from_str("unknown scope(s): ");
                    m.append(join_strings(&bad, ", ").as_str());
                    m.append(". Run `nub token scopes` for the valid set.");
                    proof {
                        assert(strs(bad@) =~= string_views(bad@));
                    }
                    Err(CliError(m))
                },
            }
        },
    }
}

/// The seconds one unit of a duration suffix stands for.
pub open spec fn unit_seconds(c: char) -> Option<int> {
    if c == 's' {
        Some(1)
    } else if c == 'm' {
        Some(60)
    } else if c == 'h' {
        Some(3600)
    } else if c == 'd' {
        Some(86400)
    } else if c == 'w' {
        Some(604800)
    } else if c == 'y' {
        Some(31536000)
    } else {
        None
    }
}

/// An ASCII letter.
pub open spec fn is_ascii_alpha(c: char) -> bool {
    ('a' <= c <= 'z') || ('A' <= c <= 'Z')
}

/// The ASCII lower-case form of a character.
pub open spec fn ascii_lower(c: char) -> char {
    if 'A' <= c <= 'Z' {
        ((c as u8) + 32) as char
    } else {
        c
    }
}

/// What `{:?}` prints for a string.
pub uninterp spec fn str_debug(s: Seq<char>) -> Seq<char>;

/// `<str as Debug>::fmt`: the string quoted and escaped. Claimed: the
/// text is named by `str_debug`.
#[verifier::external_body]
fn debug_quoted(s: &str) -> (res: String)
    ensures
        res@ == str_debug(s@),
{
    format!("{:?}", s)
}

/// A duration such as `90d`, `12h`, `30m` or `1y`, in seconds; a bare
/// integer is seconds. The value is a mathematical integer: the caller
/// keeps it within `i64`.
pub open spec fn spec_parse_duration(s: Seq<char>) -> Result<int, Seq<char>> {
    let t = trim(s);
    if t.len() == 0 {
        Err("empty duration"@)
    } else {
        let last = t.last();
        let (num, unit) = if is_ascii_alpha(last) {
            (t.drop_last(), last)
        } else {
            (t, 's')
        };
        match spec_parse_i64(num) {
            None => Err("parsing duration "@ + str_debug(t) + ": "@ + int_parse_error_text(num)),
            Some(n) => match unit_seconds(ascii_lower(unit)) {
                None => Err("unknown duration unit '"@ + seq![ascii_lower(unit)] + "'; use s|m|h|d|w|y"@),
                Some(f) => if n * f <= 0 {
                    Err("duration must be positive"@)
                } else {
                    Ok(n * f)
                },
            },
        }
    }
}

/// The duration's value fits in an `i64`, or it is refused anyway.
pub open spec fn duration_fits(s: Seq<char>) -> bool {
    match spec_parse_duration(s) {
        Ok(v) => v <= i64::MAX,
        Err(_) => true,
    }
}

/// Parses `s` as far as needed to tell whether its value fits in an
/// `i64`: the test to make before `parse_duration`.
pub fn duration_in_range(s: &str) -> (res: bool)
    ensures
        res == duration_fits(s@),
{
    match parse_duration_wide(s) {
        Ok(v) => v <= i64::MAX as i128,
        Err(_) => true,
    }
}

/// `spec_parse_duration` with the value computed in `i128`.
fn parse_duration_wide(s: &str) -> (res: Result<i128, CliError>)
    ensures
        match spec_parse_duration(s@) {
            Ok(v) => res matches Ok(w) && w == v,
            Err(m) => res matches Err(e) && e.0@ == m,
        },
{
    let t = trim_chars(to_chars(s).as_slice());
    if t.len() == 0 {
        return Err(CliError(String::from_str("empty duration")));
    }
    let last = t[t.len() - 1];
    let alpha = ('a' <= last && last <= 'z') || ('A' <= last && last <= 'Z');
    let num = if alpha {
        slice_chars(t.as_slice(), 0, t.len() - 1)
    } else {
        slice_chars(t.as_slice(), 0, t.len())
    };
    let unit = if alpha {
        last
    } else {
        's'
    };
    assert(t@.drop_last() =~= t@.subrange(0, t@.len() - 1));
    assert(t@ =~= t@.subrange(0, t@.len() as int));
    let n = match parse_i64(num.as_slice()) {
        Some(n) => n,
        None => {
            let ts = from_chars(t.as_slice());
            let mut m = String::from_str("parsing duration ");
            m.append(debug_quoted(ts.as_str()).as_str());
            m.append(": ");
            m.append(int_parse_error_message(from_chars(num.as_slice()).as_str()).as_str());
            return Err(CliError(m));
        },
    };
    let lower = if 'A' <= unit && unit <= 'Z' {
        ((unit as u8) + 32) as char
    } else {
        unit
    };
    let f: i128 = if lower == 's' {
        1
    } else if lower == 'm' {
        60
    } else if lower == 'h' {
        3600
    } else if lower == 'd' {
        86400
    } else if lower == 'w' {
        604800
    } else if lower == 'y' {
        31536000
    } else {
        let mut m = String::from_str("unknown duration unit '");
        m.push(lower);
        m.append("'; use s|m|h|d|w|y");
        return Err(CliError(m));
    };
    let v: i128 = (n as i128) * f;
    if v <= 0 {
        return Err(CliError(String::from_str("duration must be positive")));
    }
    Ok(v)
}

/// Parses a duration into seconds.
pub fn parse_duration(s: &str) -> (res: Result<i64, CliError>)
    requires
        duration_fits(s@),
    ensures
        match spec_parse_duration(s@) {
            Ok(v) => res matches Ok(w) && w == v,
            Err(m) => res matches Err(e) && e.0@ == m,
        },
{
    match parse_duration_wide(s) {
        Ok(v) => Ok(v as i64),
        Err(e) => Err(e),
    }
}

/// The message when the issuer cannot sign.
pub open spec fn verify_only_message() -> Seq<char> {
    "nub holds only a verifying public key (trusted_issuer is set); mint tokens with the corresponding private key elsewhere"@
}

/// The claims `nub token mint` signs, at time `now`: issuer `nub`,
/// valid from `now` for `ttl` seconds.
pub fn mint_claims(sub: String, aud: String, scope: String, now: i64, ttl: i64) -> (res: Claims)
    requires
        i64::MIN <= now + ttl <= i64::MAX,
    ensures
        res.iss@ == "nub"@,
        res.sub == sub,
        res.aud == aud,
        res.scope == scope,
        res.exp == now + ttl,
        res.nbf == now,
        res.iat == now,
{
    Claims { iss: String::from_str("nub"), sub, aud, exp: now + ttl, nbf: now, iat: now, scope }
}

/// Everything `nub token mint` decides before signing: the issuer must
/// hold the private key, then the scope claim and the lifetime are
/// resolved, and the claims are built at time `now`.
pub fn prepare_mint(
    issuer: &Issuer,
    sub: String,
    aud: String,
    scope_arg: Option<&str>,
    preset_arg: Option<&str>,
    expires: &str,
    now: i64,
) -> (res: Result<Claims, CliError>)
    requires
        issuer is SelfManaged && spec_resolve_scope(opt_view(scope_arg), opt_view(preset_arg)) is Ok ==> duration_fits(
            expires@,
        ) && match spec_parse_duration(expires@) {
            Ok(v) => now + v <= i64::MAX,
            Err(_) => true,
        },
    ensures
        !(issuer is SelfManaged) ==> (res matches Err(e) && e.0@ == verify_only_message()),
        issuer is SelfManaged ==> match spec_resolve_scope(opt_view(scope_arg), opt_view(preset_arg)) {
            Err(m) => res matches Err(e) && e.0@ == m,
            Ok(sc) => match spec_parse_duration(expires@) {
                Err(m) => res matches Err(e) && e.0@ == m,
                Ok(ttl) => res matches Ok(c) && c.iss@ == "nub"@ && c.sub == sub && c.aud == aud && c.scope@ == sc
                    && c.exp == now + ttl && c.nbf == now && c.iat == now,
            },
        },
{
    if !issuer.can_mint() {
        return Err(
            CliError(
                String::from_str(
                    "nub holds only a verifying public key (trusted_issuer is set); mint tokens with the corresponding private key elsewhere",
                ),
            ),
        );
    }
    let scope = resolve_scope(scope_arg, preset_arg)?;
    let ttl = parse_duration(expires)?;
    Ok(mint_claims(sub, aud, scope, now, ttl))
}

/// The entries of a `--scope` argument, joined by single spaces, split
/// back into the same entries, whether read as a scope string or on ASCII
/// whitespace.
proof fn lemma_scope_arg_normalized(raw: Seq<char>)
    ensures
        ws_tokens(join_words(scope_arg_tokens(raw))) == scope_arg_tokens(raw),
        scope_string_tokens(join_words(scope_arg_tokens(raw))) == scope_arg_tokens(raw),
{
    let m = commas_as_spaces(raw);
    let ts = scope_arg_tokens(raw);
    lemma_tokens_are_words(true, m);
    assert forall|k: int| 0 <= k < ts.len() implies crate::text::is_word(false, #[trigger] ts[k]) by {
        lemma_unicode_word_is_ascii_word(ts[k]);
    }
    lemma_join_words_tokens(ts);
    assert forall|i: int| 0 <= i < m.len() implies m[i] != ',' by {}
    lemma_tokens_avoid(true, m, ',');
    lemma_join_words_comma_free(ts);
    lemma_comma_free_tokens(join_words(ts));
}

/// `--preset readonly` (or `read-only`) mints a claim that authorizes
/// exactly the scopes that change no state: every read scope, and no
/// scope that creates, changes, removes or reveals anything.
pub proof fn law_readonly_preset_grants_reads(name: Seq<char>, needed: Scope)
    requires
        name == "readonly"@ || name == "read-only"@,
    ensures
        spec_preset(name) matches Ok(s) && (crate::auth::scope::validate::spec_granted_allows(s, needed)
            <==> is_read_scope(needed)),
{
    reveal_strlit("admin");
    reveal_strlit("operator");
    reveal_strlit("deploy");
    reveal_strlit("readonly");
    reveal_strlit("read-only");
    crate::auth::scope::validate::law_join_grants_exactly(READONLY@, needed);
    lemma_readonly_is_all_reads(needed);
    assert(name[0] == 'r');
    assert("admin"@[0] == 'a' && "operator"@[0] == 'o' && "deploy"@[0] == 'd');
    assert(name != "admin"@);
    assert(name != "operator"@);
    assert(name != "deploy"@);
    assert(spec_preset(name) == Ok::<Seq<char>, Seq<char>>(spec_join_scopes(READONLY@)));
}

/// Each preset authorizes what its name says: `admin` every scope, and
/// `operator` and `deploy` exactly the scopes of their lists.
pub proof fn law_presets_grant_their_lists(needed: Scope)
    ensures
        spec_preset("admin"@) matches Ok(s) && crate::auth::scope::validate::spec_granted_allows(s, needed),
        spec_preset("operator"@) matches Ok(s) && (crate::auth::scope::validate::spec_granted_allows(s, needed)
            <==> OPERATOR@.contains(needed)),
        spec_preset("deploy"@) matches Ok(s) && (crate::auth::scope::validate::spec_granted_allows(s, needed)
            <==> DEPLOY@.contains(needed)),
{
    reveal_strlit("admin");
    reveal_strlit("operator");
    reveal_strlit("deploy");
    reveal_strlit("*");
    assert("*"@ =~= seq!['*']);
    assert("operator"@[0] == 'o' && "admin"@[0] == 'a' && "deploy"@[0] == 'd');
    crate::auth::scope::validate::law_star_grants_all(needed);
    crate::auth::scope::validate::law_join_grants_exactly(OPERATOR@, needed);
    crate::auth::scope::validate::law_join_grants_exactly(DEPLOY@, needed);
}

/// Every scope claim `nub token mint` can embed passes scope validation:
/// presets expand to valid scopes, and an explicit list is refused unless
/// every entry is valid.
pub proof fn law_resolved_scope_is_valid(scope_arg: Option<Seq<char>>, preset_arg: Option<Seq<char>>)
    ensures
        spec_resolve_scope(scope_arg, preset_arg) matches Ok(s) ==> invalid_tokens(scope_string_tokens(s)).len() == 0,
{
    reveal_strlit("*");
    if let Ok(s) = spec_resolve_scope(scope_arg, preset_arg) {
        law_join_scopes_validates(OPERATOR@);
        law_join_scopes_validates(DEPLOY@);
        law_join_scopes_validates(READONLY@);
        crate::text::lemma_ws_tokens_append_word(false, seq![], seq!['*']);
        assert(seq![] + seq!['*'] =~= seq!['*']);
        assert("*"@ =~= seq!['*']);
        assert(ws_tokens(seq!['*']) =~= seq![seq!['*']]);
        assert(invalid_tokens(seq![seq!['*']]).len() == 0) by {
            let one = seq![seq!['*']];
            assert(one.drop_last() =~= Seq::<Seq<char>>::empty());
            assert(one.last() == seq!['*']);
            assert(crate::auth::scope::validate::valid_token(seq!['*']));
            assert(invalid_tokens(Seq::<Seq<char>>::empty()).len() == 0);
        }
        assert(scope_string_tokens(seq!['*']) =~= seq![seq!['*']]) by {
            lemma_comma_free_tokens(seq!['*']);
        }
        if preset_arg is None && scope_arg is Some {
            lemma_scope_arg_normalized(scope_arg->0);
        }
    }
}

/// `*` in a scope claim allows every op.
pub proof fn law_star_allows_every_op(op: Seq<char>)
    ensures
        crate::auth::jwt::scope_allows("*"@, op),
{
    reveal_strlit("*");
    crate::text::lemma_ws_tokens_append_word(false, seq![], seq!['*']);
    assert(seq![] + seq!['*'] =~= seq!['*']);
    assert("*"@ =~= seq!['*']);
    assert(ws_tokens("*"@)[0] == "*"@);
}

/// The lines after the scope list of `nub token scopes`: the wildcards,
/// and the presets with their sizes.
pub open spec fn scopes_help_tail() -> Seq<Seq<char>> {
    seq![
        seq![],
        "Wildcards:"@,
        "  *              all scopes"@,
        "  <resource>:*   all actions on a resource"@,
        seq![],
        "Presets:"@,
        "  admin     \u{2192} *"@,
        "  operator  \u{2192} "@ + decimal(OPERATOR@.len()) + " scopes (day-to-day operations; no secrets:reveal)"@,
        "  deploy    \u{2192} "@ + decimal(DEPLOY@.len()) + " scopes (stack delivery from CI)"@,
        "  readonly  \u{2192} "@ + decimal(READONLY@.len()) + " scopes (state-changing ops excluded)"@,
    ]
}

/// The lines `nub token scopes` prints: a heading, every scope, the
/// wildcards, and the presets with their sizes.
pub fn scopes_help() -> (res: Vec<String>)
    ensures
        res@.len() == Scope::ALL@.len() + 11,
        res@[0]@ == "Scopes (one per network-exposed op):"@,
        forall|i: int| 0 <= i < Scope::ALL@.len() ==> res@[i + 1]@ == "  "@ + scope_chars(#[trigger] Scope::ALL@[i]),
        strs(res@.subrange(Scope::ALL@.len() as int + 1, res@.len() as int)) == scopes_help_tail(),
{
    let mut out: Vec<String> = Vec::new();
    out.push(String::from_str("Scopes (one per network-exposed op):"));
    let all = Scope::ALL;
    let mut i: usize = 0;
    while i < 42
        invariant
            i <= 42,
            all@ == Scope::ALL@,
            all@.len() == 42,
            out@.len() == i + 1,
            out@[0]@ == "Scopes (one per network-exposed op):"@,
            forall|k: int| 0 <= k < i ==> out@[k + 1]@ == "  "@ + scope_chars(#[trigger] Scope::ALL@[k]),
        decreases 42 - i,
    {
        let mut line = String::from_str("  ");
        line.append(all[i].as_str());
        out.push(line);
        i = i + 1;
    }
    out.push(String::new());
    out.push(String::from_str("Wildcards:"));
    out.push(String::from_str("  *              all scopes"));
    out.push(String::from_str("  <resource>:*   all actions on a resource"));
    out.push(String::new());
    out.push(String::from_str("Presets:"));
    out.push(String::from_str("  admin     \u{2192} *"));
    let mut op = String::from_str("  operator  \u{2192} ");
    op.append(crate::num::format_u64(OPERATOR.len() as u64).as_str());
    op.append(" scopes (day-to-day operations; no secrets:reveal)");
    out.push(op);
    let mut de = String::from_str("  deploy    \u{2192} ");
    de.append(crate::num::format_u64(DEPLOY.len() as u64).as_str());
    de.append(" scopes (stack delivery from CI)");
    out.push(de);
    let mut ro = String::from_str("  readonly  \u{2192} ");
    ro.append(crate::num::format_u64(READONLY.len() as u64).as_str());
    ro.append(" scopes (state-changing ops excluded)");
    out.push(ro);
    assert(strs(out@.subrange(43, 53)) =~= scopes_help_tail());
    out
}

} // verus!
