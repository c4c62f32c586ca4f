//! Free functions on scope strings: token and string validation, the
//! grant check the runtime uses, and the `Scope` list to claim-string
//! joiner used at mint time.

use vstd::prelude::*;
use vstd::string::StringExecFns;

use super::types::{
    colon_free, is_scope_string, lemma_scope_chars_injective, lemma_scope_parts_well_formed,
    lemma_split_at_colon, scope_chars, spec_action, spec_resource, ParseScopeError, Scope,
};
use crate::text::{
    chars_eq, find_char, is_ascii_ws, slice_chars, split_ascii_ws, to_chars, views, ws_tokens,
};

verus! {

/// Resources that admit `<resource>:*` wildcards.
pub const RESOURCES: [&'static str; 9] = [
    "host",
    "auth",
    "containers",
    "images",
    "volumes",
    "networks",
    "dockerfiles",
    "stacks",
    "secrets",
];

/// The wildcard-capable resources, as character sequences.
pub open spec fn spec_resources() -> Seq<Seq<char>> {
    seq![
        "host"@,
        "auth"@,
        "containers"@,
        "images"@,
        "volumes"@,
        "networks"@,
        "dockerfiles"@,
        "stacks"@,
        "secrets"@,
    ]
}

/// `t` is `<resource>:*` for a listed resource.
pub open spec fn is_resource_wildcard(t: Seq<char>) -> bool {
    exists|i: int| 0 <= i < spec_resources().len() && t == #[trigger] spec_resources()[i] + seq![':', '*']
}

/// A token of a scope claim that nub accepts: `*`, `<resource>:*` for a
/// listed resource, or a concrete scope.
pub open spec fn valid_token(t: Seq<char>) -> bool {
    t == seq!['*'] || is_resource_wildcard(t) || is_scope_string(t)
}

/// Does the single claim token `tok` authorize `needed`?
pub open spec fn token_grants(tok: Seq<char>, needed: Scope) -> bool {
    tok == seq!['*'] || tok == scope_chars(needed) || tok == spec_resource(needed) + seq![':', '*']
}

/// Some whitespace-separated token of `granted` authorizes `needed`.
pub open spec fn spec_granted_allows(granted: Seq<char>, needed: Scope) -> bool {
    exists|i: int| 0 <= i < ws_tokens(granted).len() && token_grants(#[trigger] ws_tokens(granted)[i], needed)
}

/// The tokens of `ts` that are not valid, in order.
pub open spec fn invalid_tokens(ts: Seq<Seq<char>>) -> Seq<Seq<char>>
    decreases ts.len(),
{
    if ts.len() == 0 {
        seq![]
    } else if valid_token(ts.last()) {
        invalid_tokens(ts.drop_last())
    } else {
        invalid_tokens(ts.drop_last()).push(ts.last())
    }
}

/// `s` with every comma turned into a space.
pub open spec fn commas_as_spaces(s: Seq<char>) -> Seq<char> {
    s.map_values(|c: char| if c == ',' { ' ' } else { c })
}

/// The entries of a scope string: the pieces between ASCII whitespace and
/// commas, empty pieces dropped.
pub open spec fn scope_string_tokens(s: Seq<char>) -> Seq<Seq<char>> {
    ws_tokens(commas_as_spaces(s))
}

/// `words` joined by single spaces.
pub open spec fn join_words(words: Seq<Seq<char>>) -> Seq<char>
    decreases words.len(),
{
    if words.len() == 0 {
        seq![]
    } else if words.len() == 1 {
        words[0]
    } else {
        join_words(words.drop_last()) + seq![' '] + words.last()
    }
}

/// The claim string a list of scopes is minted into.
pub open spec fn spec_join_scopes(scopes: Seq<Scope>) -> Seq<char> {
    join_words(scopes.map_values(|s: Scope| scope_chars(s)))
}

/// The listed resources are exactly the resources of the scopes.
pub proof fn lemma_resources_match_scopes()
    ensures
        forall|s: Scope| spec_resources().contains(#[trigger] spec_resource(s)),
        forall|i: int|
            0 <= i < spec_resources().len() ==> exists|s: Scope| spec_resource(s) == #[trigger] spec_resources()[i],
{
    assert forall|s: Scope| spec_resources().contains(#[trigger] spec_resource(s)) by {
        match s {
            Scope::HostInfo | Scope::AuthWhoami => {
                assert(spec_resources()[0] == "host"@);
                assert(spec_resources()[1] == "auth"@);
            },
            Scope::ContainersList | Scope::ContainersGet | Scope::ContainersLogs
            | Scope::ContainersStats | Scope::ContainersCreate | Scope::ContainersStart
            | Scope::ContainersStop | Scope::ContainersRestart | Scope::ContainersKill
            | Scope::ContainersRemove | Scope::ContainersExec => {
                assert(spec_resources()[2] == spec_resource(s));
            },
            Scope::ImagesList | Scope::ImagesGet | Scope::ImagesPull | Scope::ImagesBuild
            | Scope::ImagesDelete => {
                assert(spec_resources()[3] == spec_resource(s));
            },
            Scope::VolumesList | Scope::VolumesGet | Scope::VolumesCreate | Scope::VolumesDelete => {
                assert(spec_resources()[4] == spec_resource(s));
            },
            Scope::NetworksList | Scope::NetworksGet | Scope::NetworksCreate
            | Scope::NetworksDelete => {
                assert(spec_resources()[5] == spec_resource(s));
            },
            Scope::DockerfilesList | Scope::DockerfilesGet | Scope::DockerfilesPut
            | Scope::DockerfilesDelete => {
                assert(spec_resources()[6] == spec_resource(s));
            },
            Scope::StacksList | Scope::StacksGet | Scope::StacksLogs | Scope::StacksCreate
            | Scope::StacksDelete | Scope::StacksRedeploy | Scope::StacksUpdate
            | Scope::StacksPull => {
                assert(spec_resources()[7] == spec_resource(s));
            },
            Scope::SecretsList | Scope::SecretsPut | Scope::SecretsDelete | Scope::SecretsReveal => {
                assert(spec_resources()[8] == spec_resource(s));
            },
        }
    }
    assert(spec_resource(Scope::HostInfo) == spec_resources()[0]);
    assert(spec_resource(Scope::AuthWhoami) == spec_resources()[1]);
    assert(spec_resource(Scope::ContainersList) == spec_resources()[2]);
    assert(spec_resource(Scope::ImagesList) == spec_resources()[3]);
    assert(spec_resource(Scope::VolumesList) == spec_resources()[4]);
    assert(spec_resource(Scope::NetworksList) == spec_resources()[5]);
    assert(spec_resource(Scope::DockerfilesList) == spec_resources()[6]);
    assert(spec_resource(Scope::StacksList) == spec_resources()[7]);
    assert(spec_resource(Scope::SecretsList) == spec_resources()[8]);
}

/// Every listed resource is non-empty and colon-free.
proof fn lemma_resources_colon_free(i: int)
    requires
        0 <= i < spec_resources().len(),
    ensures
        colon_free(spec_resources()[i]),
        spec_resources()[i].len() > 0,
{
    lemma_resources_match_scopes();
    let s = choose|s: Scope| spec_resource(s) == spec_resources()[i];
    lemma_scope_parts_well_formed(s);
}

/// No action is the `*` wildcard.
proof fn lemma_action_not_star(s: Scope)
    ensures
        spec_action(s) != seq!['*'],
{
    lemma_scope_parts_well_formed(s);
    super::types::lemma_action_long(s);
}

/// Splitting a token at its first colon.
proof fn lemma_first_colon_split(t: Seq<char>, p: int)
    requires
        0 <= p < t.len(),
        t[p] == ':',
        forall|j: int| 0 <= j < p ==> t[j] != ':',
    ensures
        colon_free(t.subrange(0, p)),
        t == t.subrange(0, p) + seq![':'] + t.subrange(p + 1, t.len() as int),
{
    assert(t =~= t.subrange(0, p) + seq![':'] + t.subrange(p + 1, t.len() as int));
}

/// Is `r` one of the wildcard-capable resources?
fn resource_listed(r: &[char]) -> (res: bool)
    ensures
        res == spec_resources().contains(r@),
{
    let mut i: usize = 0;
    while i < 9
        invariant
            i <= 9,
            forall|j: int| 0 <= j < i ==> spec_resources()[j] != r@,
        decreases 9 - i,
    {
        let lit = RESOURCES[i];
        assert(lit@ == spec_resources()[i as int]);
        let cand = to_chars(lit);
        if chars_eq(cand.as_slice(), r) {
            return true;
        }
        i = i + 1;
    }
    false
}

/// Validate one scope token (one word from a JWT `scope` claim or
/// `--scope` argument). Accepts `*`, `<resource>:*`, or any concrete scope.
pub fn validate_token(tok: &str) -> (res: Result<(), ParseScopeError>)
    ensures
        res is Ok <==> valid_token(tok@),
        res matches Err(e) ==> e.0@ == tok@,
{
    let t = to_chars(tok);
    if t.len() == 1 && t[0] == '*' {
        assert(t@ =~= seq!['*']);
        return Ok(());
    }
    proof {
        assert(t@ != seq!['*']);
    }
    let first = find_char(t.as_slice(), ':', 0);
    let p = match first {
        None => {
            proof {
                assert(!is_resource_wildcard(t@)) by {
                    if is_resource_wildcard(t@) {
                        let i = choose|i: int|
                            0 <= i < spec_resources().len() && t@ == #[trigger] spec_resources()[i]
                                + seq![':', '*'];
                        assert(t@[spec_resources()[i].len() as int] == ':');
                    }
                }
                assert(!is_scope_string(t@)) by {
                    if is_scope_string(t@) {
                        let s = choose|s: Scope| scope_chars(s) == t@;
                        assert(t@[spec_resource(s).len() as int] == ':');
                    }
                }
            }
            return Err(ParseScopeError(String::from_str(tok)));
        },
        Some(p) => p,
    };
    let ghost r = t@.subrange(0, p as int);
    let ghost a = t@.subrange(p + 1, t@.len() as int);
    proof {
        lemma_first_colon_split(t@, p as int);
    }
    let later = find_char(t.as_slice(), ':', p + 1);
    let invalid_shape = later.is_some() || p == 0 || p + 1 == t.len();
    if invalid_shape {
        proof {
            if later.is_some() {
                let q = later.unwrap();
                assert(a[q - p - 1] == ':');
            }
            assert(!is_resource_wildcard(t@)) by {
                if is_resource_wildcard(t@) {
                    let i = choose|i: int|
                        0 <= i < spec_resources().len() && t@ == #[trigger] spec_resources()[i] + seq![
                            ':',
                            '*',
                        ];
                    lemma_resources_colon_free(i);
                    assert(spec_resources()[i] + seq![':', '*'] =~= spec_resources()[i] + seq![':']
                        + seq!['*']);
                    lemma_split_at_colon(r, a, spec_resources()[i], seq!['*']);
                }
            }
            assert(!is_scope_string(t@)) by {
                if is_scope_string(t@) {
                    let s = choose|s: Scope| scope_chars(s) == t@;
                    lemma_scope_parts_well_formed(s);
                    lemma_split_at_colon(r, a, spec_resource(s), spec_action(s));
                }
            }
        }
        return Err(ParseScopeError(String::from_str(tok)));
    }
    if t.len() == p + 2 && t[p + 1] == '*' {
        assert(a =~= seq!['*']);
        let res_chars = slice_chars(t.as_slice(), 0, p);
        if resource_listed(res_chars.as_slice()) {
            proof {
                let i = choose|i: int| 0 <= i < spec_resources().len() && spec_resources()[i] == r;
                assert(t@ == spec_resources()[i] + seq![':', '*']);
            }
            return Ok(());
        }
        proof {
            assert(!is_resource_wildcard(t@)) by {
                if is_resource_wildcard(t@) {
                    let i = choose|i: int|
                        0 <= i < spec_resources().len() && t@ == #[trigger] spec_resources()[i] + seq![
                            ':',
                            '*',
                        ];
                    lemma_resources_colon_free(i);
                    assert(spec_resources()[i] + seq![':', '*'] =~= spec_resources()[i] + seq![':']
                        + seq!['*']);
                    lemma_split_at_colon(r, a, spec_resources()[i], seq!['*']);
                    assert(spec_resources().contains(r));
                }
            }
            assert(!is_scope_string(t@)) by {
                if is_scope_string(t@) {
                    let s = choose|s: Scope| scope_chars(s) == t@;
                    lemma_scope_parts_well_formed(s);
                    lemma_split_at_colon(r, a, spec_resource(s), spec_action(s));
                    lemma_action_not_star(s);
                }
            }
        }
        return Err(ParseScopeError(String::from_str(tok)));
    }
    proof {
        assert(a != seq!['*']);
        assert(!is_resource_wildcard(t@)) by {
            if is_resource_wildcard(t@) {
                let i = choose|i: int|
                    0 <= i < spec_resources().len() && t@ == #[trigger] spec_resources()[i] + seq![
                        ':',
                        '*',
                    ];
                lemma_resources_colon_free(i);
                assert(spec_resources()[i] + seq![':', '*'] =~= spec_resources()[i] + seq![':']
                    + seq!['*']);
                lemma_split_at_colon(r, a, spec_resources()[i], seq!['*']);
            }
        }
    }
    match Scope::parse(tok) {
        Ok(_) => Ok(()),
        Err(e) => Err(e),
    }
}

/// String views of a vector of `String`s.
pub open spec fn string_views(v: Seq<String>) -> Seq<Seq<char>> {
    v.map_values(|x: String| x@)
}

/// Validate a whole space- or comma-separated scope string. Returns the
/// unknown tokens, in order, if any are bad.
pub fn validate_string(s: &str) -> (res: Result<(), Vec<String>>)
    ensures
        res is Ok <==> invalid_tokens(scope_string_tokens(s@)).len() == 0,
        res matches Err(bad) ==> string_views(bad@) == invalid_tokens(scope_string_tokens(s@)),
{
    let chars = to_chars(s);
    let mut mapped: Vec<char> = Vec::new();
    let mut j: usize = 0;
    while j < chars.len()
        invariant
            j <= chars@.len(),
            mapped@ == commas_as_spaces(chars@.subrange(0, j as int)),
        decreases chars@.len() - j,
    {
        let c = chars[j];
        mapped.push(
            if c == ',' {
                ' '
            } else {
                c
            },
        );
        assert(mapped@ =~= commas_as_spaces(chars@.subrange(0, j + 1)));
        j = j + 1;
    }
    assert(chars@.subrange(0, j as int) =~= chars@);
    let toks = split_ascii_ws(mapped.as_slice());
    let ghost ts = scope_string_tokens(s@);
    let mut bad: Vec<String> = Vec::new();
    let mut i: usize = 0;
    while i < toks.len()
        invariant
            views(toks@) == ts,
            i <= toks@.len(),
            string_views(bad@) == invalid_tokens(ts.subrange(0, i as int)),
        decreases toks@.len() - i,
    {
        let word = crate::text::from_chars(toks[i].as_slice());
        let ghost upto = ts.subrange(0, i + 1);
        assert(upto.drop_last() =~= ts.subrange(0, i as int));
        assert(upto.last() == toks@[i as int]@);
        if validate_token(word.as_str()).is_err() {
            bad.push(word);
            assert(string_views(bad@) =~= invalid_tokens(upto));
        }
        i = i + 1;
    }
    assert(ts.subrange(0, ts.len() as int) =~= ts);
    if bad.len() == 0 {
        Ok(())
    } else {
        Err(bad)
    }
}

/// Does the single token `tok` authorize `needed`?
fn token_allows(tok: &[char], needed_str: &[char], needed_resource: &[char], needed: Ghost<Scope>) -> (res: bool)
    requires
        needed_str@ == scope_chars(needed@),
        needed_resource@ == spec_resource(needed@),
    ensures
        res == token_grants(tok@, needed@),
{
    if tok.len() == 1 && tok[0] == '*' {
        assert(tok@ =~= seq!['*']);
        return true;
    }
    if chars_eq(tok, needed_str) {
        return true;
    }
    let ghost wild = spec_resource(needed@) + seq![':', '*'];
    proof {
        lemma_scope_parts_well_formed(needed@);
    }
    match find_char(tok, ':', 0) {
        None => {
            proof {
                if tok@ == wild {
                    assert(tok@[spec_resource(needed@).len() as int] == ':');
                }
            }
            false
        },
        Some(p) => {
            proof {
                lemma_first_colon_split(tok@, p as int);
                assert(wild =~= spec_resource(needed@) + seq![':'] + seq!['*']);
            }
            let ghost r = tok@.subrange(0, p as int);
            let ghost a = tok@.subrange(p + 1, tok@.len() as int);
            if tok.len() - p == 2 && tok[p + 1] == '*' {
                assert(a =~= seq!['*']);
                let prefix = slice_chars(tok, 0, p);
                let same = chars_eq(prefix.as_slice(), needed_resource);
                proof {
                    if tok@ == wild {
                        lemma_split_at_colon(r, a, spec_resource(needed@), seq!['*']);
                    }
                }
                same
            } else {
                proof {
                    if tok@ == wild {
                        lemma_split_at_colon(r, a, spec_resource(needed@), seq!['*']);
                    }
                }
                false
            }
        },
    }
}

/// Does any token in the granted scope string authorize `needed`?
pub fn granted_allows(granted: &str, needed: Scope) -> (res: bool)
    ensures
        res == spec_granted_allows(granted@, needed),
{
    let needed_str = to_chars(needed.as_str());
    let needed_resource = to_chars(needed.resource());
    let chars = to_chars(granted);
    let toks = split_ascii_ws(chars.as_slice());
    let mut i: usize = 0;
    while i < toks.len()
        invariant
            views(toks@) == ws_tokens(granted@),
            i <= toks@.len(),
            needed_str@ == scope_chars(needed),
            needed_resource@ == spec_resource(needed),
            forall|j: int| 0 <= j < i ==> !token_grants(#[trigger] ws_tokens(granted@)[j], needed),
        decreases toks@.len() - i,
    {
        assert(ws_tokens(granted@)[i as int] == toks@[i as int]@);
        if token_allows(toks[i].as_slice(), needed_str.as_slice(), needed_resource.as_slice(), Ghost(needed)) {
            return true;
        }
        i = i + 1;
    }
    false
}

/// Render a list of scopes as a single space-separated string suitable
/// for embedding in a JWT `scope` claim.
pub fn join_scopes(scopes: &[Scope]) -> (res: String)
    ensures
        res@ == spec_join_scopes(scopes@),
{
    let ghost words = scopes@.map_values(|s: Scope| scope_chars(s));
    let mut out = String::new();
    let mut i: usize = 0;
    while i < scopes.len()
        invariant
            i <= scopes@.len(),
            words == scopes@.map_values(|s: Scope| scope_chars(s)),
            out@ == join_words(words.subrange(0, i as int)),
        decreases scopes@.len() - i,
    {
        let ghost upto = words.subrange(0, i + 1);
        assert(upto.drop_last() =~= words.subrange(0, i as int));
        assert(upto.last() == scope_chars(scopes@[i as int]));
        proof {
            reveal_strlit(" ");
        }
        if i > 0 {
            out.append(" ");
        }
        out.append(scopes[i].as_str());
        proof {
            if i == 0 {
                assert(out@ =~= join_words(upto));
            } else {
                assert(out@ =~= join_words(upto));
            }
        }
        i = i + 1;
    }
    assert(words.subrange(0, words.len() as int) =~= words);
    out
}

/// Tokenizing a space-joined list of words gives back the words.
pub proof fn lemma_join_words_tokens(words: Seq<Seq<char>>)
    requires
        forall|i: int| 0 <= i < words.len() ==> crate::text::is_word(false, #[trigger] words[i]),
    ensures
        ws_tokens(join_words(words)) == words,
    decreases words.len(),
{
    if words.len() == 0 {
    } else if words.len() == 1 {
        crate::text::lemma_ws_tokens_append_word(false, seq![], words[0]);
        assert(seq![] + words[0] =~= words[0]);
        assert(seq![].push(words[0]) =~= words);
    } else {
        let init = words.drop_last();
        lemma_join_words_tokens(init);
        let pre = join_words(init) + seq![' '];
        crate::text::lemma_ws_tokens_space(false, join_words(init));
        crate::text::lemma_ws_tokens_append_word(false, pre, words.last());
        assert(init.push(words.last()) =~= words);
    }
}

/// The claim string minted from a scope list tokenizes back into the
/// wire strings of exactly those scopes.
pub proof fn lemma_join_scopes_tokens(scopes: Seq<Scope>)
    ensures
        ws_tokens(spec_join_scopes(scopes)) == scopes.map_values(|s: Scope| scope_chars(s)),
{
    let words = scopes.map_values(|s: Scope| scope_chars(s));
    assert forall|i: int| 0 <= i < words.len() implies crate::text::is_word(false, #[trigger] words[i]) by {
        super::types::lemma_scope_chars_no_ws(scopes[i]);
    }
    lemma_join_words_tokens(words);
}

/// A string without commas splits into the same entries as a scope
/// string as on ASCII whitespace alone.
pub proof fn lemma_comma_free_tokens(s: Seq<char>)
    requires
        forall|i: int| 0 <= i < s.len() ==> s[i] != ',',
    ensures
        scope_string_tokens(s) == ws_tokens(s),
{
    assert(commas_as_spaces(s) =~= s);
}

/// Words without commas join into a string without commas.
pub proof fn lemma_join_words_comma_free(words: Seq<Seq<char>>)
    requires
        forall|k: int, j: int| 0 <= k < words.len() && 0 <= j < words[k].len() ==> #[trigger] words[k][j] != ',',
    ensures
        forall|i: int| 0 <= i < join_words(words).len() ==> join_words(words)[i] != ',',
    decreases words.len(),
{
    if words.len() == 1 {
        assert forall|i: int| 0 <= i < join_words(words).len() implies join_words(words)[i] != ',' by {
            assert(words[0][i] != ',');
        }
    } else if words.len() > 1 {
        let init = words.drop_last();
        assert forall|k: int, j: int| 0 <= k < init.len() && 0 <= j < init[k].len() implies #[trigger] init[k][j]
            != ',' by {
            assert(init[k] == words[k]);
            assert(words[k][j] != ',');
        }
        lemma_join_words_comma_free(init);
        let a = join_words(init);
        let l = words.last();
        assert forall|i: int| 0 <= i < join_words(words).len() implies join_words(words)[i] != ',' by {
            if i < a.len() {
                assert(join_words(words)[i] == a[i]);
            } else if i > a.len() {
                assert(join_words(words)[i] == l[i - a.len() - 1]);
                assert(words[words.len() - 1][i - a.len() - 1] != ',');
            }
        }
    }
}

/// A scope's own wire string grants exactly that scope.
proof fn lemma_scope_token_grants(x: Scope, needed: Scope)
    ensures
        token_grants(scope_chars(x), needed) <==> x == needed,
{
    lemma_scope_parts_well_formed(x);
    lemma_scope_parts_well_formed(needed);
    if scope_chars(x) == seq!['*'] {
        assert(scope_chars(x)[spec_resource(x).len() as int] == ':');
    }
    if scope_chars(x) == scope_chars(needed) {
        lemma_scope_chars_injective(x, needed);
    }
    if scope_chars(x) == spec_resource(needed) + seq![':', '*'] {
        assert(spec_resource(needed) + seq![':', '*'] =~= spec_resource(needed) + seq![':'] + seq!['*']);
        lemma_split_at_colon(spec_resource(x), spec_action(x), spec_resource(needed), seq!['*']);
        lemma_action_not_star(x);
    }
}

/// A token minted from a list of scopes authorizes exactly the listed
/// scopes: nothing more, nothing less.
pub proof fn law_join_grants_exactly(scopes: Seq<Scope>, needed: Scope)
    ensures
        spec_granted_allows(spec_join_scopes(scopes), needed) <==> scopes.contains(needed),
{
    lemma_join_scopes_tokens(scopes);
    let toks = ws_tokens(spec_join_scopes(scopes));
    if scopes.contains(needed) {
        let i = choose|i: int| 0 <= i < scopes.len() && scopes[i] == needed;
        lemma_scope_token_grants(scopes[i], needed);
        assert(token_grants(toks[i], needed));
    }
    if spec_granted_allows(spec_join_scopes(scopes), needed) {
        let i = choose|i: int| 0 <= i < toks.len() && token_grants(#[trigger] toks[i], needed);
        lemma_scope_token_grants(scopes[i], needed);
        assert(scopes[i] == needed);
    }
}

/// Every scope-list claim string validates: minting never embeds a
/// token that validation would reject.
pub proof fn law_join_scopes_validates(scopes: Seq<Scope>)
    ensures
        invalid_tokens(ws_tokens(spec_join_scopes(scopes))).len() == 0,
        invalid_tokens(scope_string_tokens(spec_join_scopes(scopes))).len() == 0,
{
    lemma_join_scopes_tokens(scopes);
    lemma_all_valid(scopes);
    let words = scopes.map_values(|s: Scope| scope_chars(s));
    assert forall|k: int, j: int| 0 <= k < words.len() && 0 <= j < words[k].len() implies #[trigger] words[k][j]
        != ',' by {
        super::types::lemma_scope_chars_no_ws(scopes[k]);
    }
    lemma_join_words_comma_free(words);
    lemma_comma_free_tokens(spec_join_scopes(scopes));
}

proof fn lemma_all_valid(scopes: Seq<Scope>)
    ensures
        invalid_tokens(scopes.map_values(|s: Scope| scope_chars(s))).len() == 0,
    decreases scopes.len(),
{
    let ws = scopes.map_values(|s: Scope| scope_chars(s));
    if scopes.len() > 0 {
        lemma_all_valid(scopes.drop_last());
        assert(ws.drop_last() =~= scopes.drop_last().map_values(|s: Scope| scope_chars(s)));
        assert(is_scope_string(ws.last()));
    }
}

/// The admin token `*` authorizes every scope.
pub proof fn law_star_grants_all(needed: Scope)
    ensures
        spec_granted_allows(seq!['*'], needed),
{
    crate::text::lemma_ws_tokens_append_word(false, seq![], seq!['*']);
    assert(seq![] + seq!['*'] =~= seq!['*']);
    assert(ws_tokens(seq!['*'])[0] == seq!['*']);
}

/// `<resource>:*` authorizes exactly the scopes on that resource.
pub proof fn law_resource_wildcard_grants(needed: Scope, r: Seq<char>)
    requires
        spec_resources().contains(r),
    ensures
        spec_granted_allows(r + seq![':', '*'], needed) <==> spec_resource(needed) == r,
{
    let i = choose|i: int| 0 <= i < spec_resources().len() && spec_resources()[i] == r;
    lemma_resources_colon_free(i);
    let t = r + seq![':', '*'];
    assert forall|k: int| 0 <= k < t.len() implies !is_ascii_ws(#[trigger] t[k]) by {
        if k < r.len() {
            assert(t[k] == r[k]);
            lemma_resource_no_ws(i, k);
        }
    }
    crate::text::lemma_ws_tokens_append_word(false, seq![], t);
    assert(seq![] + t =~= t);
    let tok = ws_tokens(t)[0];
    assert(tok == t);
    lemma_scope_parts_well_formed(needed);
    assert(t != seq!['*']);
    if t == scope_chars(needed) {
        assert(t =~= r + seq![':'] + seq!['*']);
        lemma_split_at_colon(r, seq!['*'], spec_resource(needed), spec_action(needed));
        lemma_action_not_star(needed);
    }
    if t == spec_resource(needed) + seq![':', '*'] {
        assert(t =~= r + seq![':'] + seq!['*']);
        assert(spec_resource(needed) + seq![':', '*'] =~= spec_resource(needed) + seq![':'] + seq!['*']);
        lemma_split_at_colon(r, seq!['*'], spec_resource(needed), seq!['*']);
    }
    if spec_resource(needed) == r {
        assert(token_grants(ws_tokens(t)[0], needed));
    }
}

proof fn lemma_resource_no_ws(i: int, k: int)
    requires
        0 <= i < spec_resources().len(),
        0 <= k < spec_resources()[i].len(),
    ensures
        !is_ascii_ws(spec_resources()[i][k]),
{
    lemma_resources_match_scopes();
    let s = choose|s: Scope| spec_resource(s) == spec_resources()[i];
    super::types::lemma_scope_chars_no_ws(s);
    assert(scope_chars(s)[k] == spec_resource(s)[k]);
}

/// Every scope's wire string parses back to that scope, and only to it.
pub proof fn law_scope_string_roundtrip(s: Scope)
    ensures
        is_scope_string(scope_chars(s)),
        valid_token(scope_chars(s)),
        forall|x: Scope| scope_chars(x) == scope_chars(s) ==> x == s,
{
    assert forall|x: Scope| scope_chars(x) == scope_chars(s) implies x == s by {
        lemma_scope_chars_injective(x, s);
    }
}

} // verus!
