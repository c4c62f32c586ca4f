//! A URL query-string builder for `?all=true&follow=true`-shaped strings.

use vstd::prelude::*;
use vstd::string::{StringExecFns, StringSliceAdditionalSpecFns};
use vstd::utf8::encode_utf8;

verus! {

/// A byte that goes into a query string as is.
pub open spec fn is_unreserved(b: u8) -> bool {
    (65 <= b <= 90) || (97 <= b <= 122) || (48 <= b <= 57) || b == 45 || b == 95 || b == 46 || b == 126
}

/// An upper-case hexadecimal digit for `n` (`0..16`).
pub open spec fn hex_digit(n: int) -> char {
    if n < 10 {
        (n + 48) as char
    } else {
        (n + 55) as char
    }
}

/// One byte, percent-encoded unless it is unreserved.
pub open spec fn encode_byte(b: u8) -> Seq<char> {
    if is_unreserved(b) {
        seq![b as char]
    } else {
        seq!['%', hex_digit((b / 16) as int), hex_digit((b % 16) as int)]
    }
}

/// Bytes, percent-encoded.
pub open spec fn percent_encoded(bs: Seq<u8>) -> Seq<char>
    decreases bs.len(),
{
    if bs.len() == 0 {
        seq![]
    } else {
        percent_encoded(bs.drop_last()) + encode_byte(bs.last())
    }
}

/// The query string so far.
pub struct Query {
    out: String,
}

impl View for Query {
    type V = Seq<char>;

    closed spec fn view(&self) -> Seq<char> {
        self.out@
    }
}

/// The hexadecimal digit for `n`.
fn hex_char(n: u8) -> (res: char)
    requires
        n < 16,
    ensures
        res == hex_digit(n as int),
{
    if n < 10 {
        ((n + 48) as u8) as char
    } else {
        ((n + 55) as u8) as char
    }
}

/// Appends the UTF-8 bytes of `s`, percent-encoded.
pub fn encode_into(out: &mut String, s: &str)
    ensures
        final(out)@ == old(out)@ + percent_encoded(encode_utf8(s@)),
{
    let bytes = s.as_bytes();
    let ghost start = out@;
    let mut i: usize = 0;
    while i < bytes.len()
        invariant
            i <= bytes@.len(),
            bytes@ == encode_utf8(s@),
            out@ == start + percent_encoded(bytes@.subrange(0, i as int)),
        decreases bytes@.len() - i,
    {
        let b = bytes[i];
        let ghost before = out@;
        assert(bytes@.subrange(0, i + 1).drop_last() =~= bytes@.subrange(0, i as int));
        if (65 <= b && b <= 90) || (97 <= b && b <= 122) || (48 <= b && b <= 57) || b == 45 || b == 95 || b == 46
            || b == 126 {
            out.push(b as char);
            assert(out@ =~= before + seq![b as char]);
        } else {
            out.push('%');
            out.push(hex_char(b / 16));
            out.push(hex_char(b % 16));
            assert(out@ =~= before + seq!['%', hex_digit((b / 16) as int), hex_digit((b % 16) as int)]);
        }
        assert(out@ =~= start + percent_encoded(bytes@.subrange(0, i + 1)));
        i = i + 1;
    }
    assert(bytes@.subrange(0, bytes@.len() as int) =~= bytes@);
}

/// One `key=value` pair after its separator: `?` first, `&` after.
pub open spec fn query_pair(so_far: Seq<char>, key: Seq<char>, value: Seq<char>) -> Seq<char> {
    so_far + seq![if so_far.len() == 0 { '?' } else { '&' }] + percent_encoded(encode_utf8(key)) + seq!['=']
        + percent_encoded(encode_utf8(value))
}

impl Query {
    /// An empty query.
    pub fn new() -> (res: Query)
        ensures
            res@ == Seq::<char>::empty(),
    {
        Query { out: String::new() }
    }

    /// Appends `key=value`, both percent-encoded.
    pub fn push(&mut self, key: &str, value: &str) -> (res: &mut Query)
        ensures
            (*res)@ == query_pair(old(self)@, key@, value@),
            *final(self) == *final(res),
    {
        let sep = if self.out.as_str().is_empty() {
            '?'
        } else {
            '&'
        };
        self.out.push(sep);
        encode_into(&mut self.out, key);
        self.out.push('=');
        encode_into(&mut self.out, value);
        self
    }

    /// Appends `key=true` or `key=false`.
    pub fn push_bool(&mut self, key: &str, value: bool) -> (res: &mut Query)
        ensures
            (*res)@ == query_pair(old(self)@, key@, if value { "true"@ } else { "false"@ }),
            *final(self) == *final(res),
    {
        self.push(
            key,
            if value {
                "true"
            } else {
                "false"
            },
        )
    }

    /// The query string.
    pub fn finish(self) -> (res: String)
        ensures
            res@ == self@,
    {
        self.out
    }
}

} // verus!
