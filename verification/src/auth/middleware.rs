//! The decisions behind the bearer-token gate on `/api/*`: where a token
//! is found in a request's headers, constant-time comparison of shared
//! tokens, and the `whoami` introspection answered before dispatch.
//!
//! Tokens arrive in the `Authorization` header for HTTP, and in the
//! `Sec-WebSocket-Protocol` subprotocol list for browser-initiated
//! WebSockets (`new WebSocket()` cannot set `Authorization`).

use vstd::prelude::*;
use vstd::string::StringExecFns;

use super::jwt::Claims;
use crate::compose::wire::strs;
use crate::text::{chars_start_with, from_chars, slice_chars, split_char, split_chars, starts_with, to_chars, trim, trim_chars, ws_tokens};

verus! {

/// An operation a client asks for. Only the ones the auth layer answers
/// itself are distinguished; any other is carried by name.
pub enum Op {
    Whoami,
    Other(String),
}

/// What `whoami` reports: the token's subject and its granted op names.
pub struct WhoamiInfo {
    pub id: String,
    pub allowed: Vec<String>,
}

/// A result the auth layer produces itself.
pub enum OpResult {
    Whoami(WhoamiInfo),
}

/// Answers the ops the auth layer handles itself, before the per-op scope
/// check and the engine handler: `whoami`, which any holder of a valid
/// token may ask. Any other op is `None`.
pub fn introspect(claims: &Claims, op: &Op) -> (res: Option<OpResult>)
    ensures
        match op {
            Op::Whoami => res matches Some(OpResult::Whoami(info)) && info.id@ == claims.sub@ && strs(
                info.allowed@,
            ) == ws_tokens(claims.scope@),
            Op::Other(_) => res is None,
        },
{
    match op {
        Op::Whoami => Some(OpResult::Whoami(WhoamiInfo { id: claims.sub.clone(), allowed: claims.scopes() })),
        Op::Other(_) => None,
    }
}

/// Compares two byte strings in time that depends only on their lengths.
pub fn ct_eq(a: &[u8], b: &[u8]) -> (res: bool)
    ensures
        res == (a@ == b@),
{
    if a.len() != b.len() {
        return false;
    }
    let mut diff: u8 = 0;
    let mut i: usize = 0;
    assert(a@.subrange(0, 0) =~= b@.subrange(0, 0));
    while i < a.len()
        invariant
            i <= a@.len(),
            a@.len() == b@.len(),
            (diff == 0) == (a@.subrange(0, i as int) == b@.subrange(0, i as int)),
        decreases a@.len() - i,
    {
        let x = a[i];
        let y = b[i];
        let d = diff | (x ^ y);
        assert((d == 0) == (diff == 0 && x == y)) by (bit_vector)
            requires
                d == diff | (x ^ y),
        ;
        proof {
            let sa = a@.subrange(0, i + 1);
            let sb = b@.subrange(0, i + 1);
            assert(sa =~= a@.subrange(0, i as int).push(x));
            assert(sb =~= b@.subrange(0, i as int).push(y));
            if sa == sb {
                assert(sa[i as int] == sb[i as int]);
                assert(a@.subrange(0, i as int) =~= sa.drop_last());
                assert(b@.subrange(0, i as int) =~= sb.drop_last());
            }
        }
        diff = d;
        i = i + 1;
    }
    assert(a@.subrange(0, a@.len() as int) =~= a@);
    assert(b@.subrange(0, b@.len() as int) =~= b@);
    diff == 0
}

/// The token of an `Authorization: Bearer <token>` header value.
pub open spec fn spec_bearer(value: Seq<char>) -> Option<Seq<char>> {
    if starts_with(value, "Bearer "@) {
        Some(value.subrange(7, value.len() as int))
    } else {
        None
    }
}

/// The bearer token of the `Authorization` header, given its value when
/// it is present and readable as text.
pub fn bearer_from_header(value: Option<&str>) -> (res: Option<String>)
    ensures
        match value {
            Some(v) => match spec_bearer(v@) {
                Some(t) => res matches Some(r) && r@ == t,
                None => res is None,
            },
            None => res is None,
        },
{
    proof {
        reveal_strlit("Bearer ");
    }
    match value {
        None => None,
        Some(v) => {
            let c = to_chars(v);
            if chars_start_with(c.as_slice(), to_chars("Bearer ").as_slice()) {
                Some(from_chars(slice_chars(c.as_slice(), 7, c.len()).as_slice()))
            } else {
                None
            }
        },
    }
}

/// The comma-separated entries of every header value, in order.
pub open spec fn header_entries(values: Seq<Seq<char>>) -> Seq<Seq<char>>
    decreases values.len(),
{
    if values.len() == 0 {
        seq![]
    } else {
        split_char(values[0], ',') + header_entries(values.drop_first())
    }
}

/// The first entry that reads `bearer.<token>` once trimmed, as its token.
pub open spec fn first_bearer_entry(entries: Seq<Seq<char>>) -> Option<Seq<char>>
    decreases entries.len(),
{
    if entries.len() == 0 {
        None
    } else if starts_with(trim(entries[0]), "bearer."@) {
        Some(trim(entries[0]).subrange(7, trim(entries[0]).len() as int))
    } else {
        first_bearer_entry(entries.drop_first())
    }
}

/// The bearer token smuggled as a `bearer.<token>` subprotocol, given the
/// `Sec-WebSocket-Protocol` header values that are readable as text.
pub fn ws_bearer_subprotocol(values: &Vec<String>) -> (res: Option<String>)
    ensures
        match first_bearer_entry(header_entries(strs(values@))) {
            Some(t) => res matches Some(r) && r@ == t,
            None => res is None,
        },
{
    proof {
        reveal_strlit("bearer.");
    }
    let prefix = to_chars("bearer.");
    let ghost all = header_entries(strs(values@));
    let mut i: usize = 0;
    assert(strs(values@).subrange(0, values@.len() as int) =~= strs(values@));
    while i < values.len()
        invariant
            i <= values@.len(),
            prefix@ == "bearer."@,
            prefix@.len() == 7,
            all == header_entries(strs(values@)),
            first_bearer_entry(all) == first_bearer_entry(header_entries(strs(values@).subrange(i as int, values@.len() as int))),
        decreases values@.len() - i,
    {
        let ghost rest = strs(values@).subrange(i as int, values@.len() as int);
        assert(rest[0] == values@[i as int]@);
        assert(rest.drop_first() =~= strs(values@).subrange(i + 1, values@.len() as int));
        let pieces = split_chars(to_chars(values[i].as_str()).as_slice(), ',');
        let mut k: usize = 0;
        let ghost tail = header_entries(rest.drop_first());
        assert(crate::text::views(pieces@).subrange(0, pieces@.len() as int) + tail =~= header_entries(rest));
        while k < pieces.len()
            invariant
                k <= pieces@.len(),
                prefix@ == "bearer."@,
                prefix@.len() == 7,
                all == header_entries(strs(values@)),
                first_bearer_entry(all) == first_bearer_entry(
                    crate::text::views(pieces@).subrange(k as int, pieces@.len() as int) + tail,
                ),
            decreases pieces@.len() - k,
        {
            let ghost here = crate::text::views(pieces@).subrange(k as int, pieces@.len() as int) + tail;
            assert(here[0] == pieces@[k as int]@);
            assert(here.drop_first() =~= crate::text::views(pieces@).subrange(k + 1, pieces@.len() as int) + tail);
            let t = trim_chars(pieces[k].as_slice());
            assert(t@ == trim(here[0]));
            if chars_start_with(t.as_slice(), prefix.as_slice()) {
                assert(t@.len() >= 7);
                return Some(from_chars(slice_chars(t.as_slice(), 7, t.len()).as_slice()));
            }
            k = k + 1;
        }
        assert(crate::text::views(pieces@).subrange(k as int, pieces@.len() as int) + tail =~= tail);
        i = i + 1;
    }
    assert(strs(values@).subrange(i as int, values@.len() as int) =~= Seq::<Seq<char>>::empty());
    None
}

} // verus!
