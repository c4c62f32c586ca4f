//! Decimal integer parsing as `str::parse::<i64>` does it, and the
//! saturating arithmetic the duration parsers rely on.

use vstd::prelude::*;
use vstd::string::StringExecFns;

verus! {

/// An ASCII decimal digit.
pub open spec fn is_digit(c: char) -> bool {
    '0' <= c && c <= '9'
}

/// Every character is an ASCII decimal digit.
pub open spec fn all_digits(ds: Seq<char>) -> bool {
    forall|i: int| 0 <= i < ds.len() ==> is_digit(#[trigger] ds[i])
}

/// The numeric value of a digit character.
pub open spec fn digit_value(c: char) -> int {
    c as int - '0' as int
}

/// The value of a string of decimal digits.
pub open spec fn digits_value(ds: Seq<char>) -> int
    decreases ds.len(),
{
    if ds.len() == 0 {
        0
    } else {
        10 * digits_value(ds.drop_last()) + digit_value(ds.last())
    }
}

/// What `str::parse::<i64>` returns: an optional `+` or `-` followed by
/// at least one decimal digit, whose value must fit in an `i64`.
pub open spec fn spec_parse_i64(s: Seq<char>) -> Option<i64> {
    let signed = s.len() > 0 && (s[0] == '+' || s[0] == '-');
    let body = if signed { s.drop_first() } else { s };
    let neg = signed && s[0] == '-';
    if body.len() == 0 || !all_digits(body) {
        None
    } else {
        let v = if neg { -digits_value(body) } else { digits_value(body) };
        if i64::MIN <= v <= i64::MAX {
            Some(v as i64)
        } else {
            None
        }
    }
}

/// Digit strings have non-negative values that never shrink as digits
/// are appended.
pub proof fn lemma_digits_value_monotone(ds: Seq<char>, k: int)
    requires
        all_digits(ds),
        0 <= k <= ds.len(),
    ensures
        0 <= digits_value(ds.subrange(0, k)) <= digits_value(ds),
    decreases ds.len() - k,
{
    if k < ds.len() {
        lemma_digits_value_monotone(ds, k + 1);
        let p = ds.subrange(0, k + 1);
        assert(p.drop_last() =~= ds.subrange(0, k));
        assert(p.last() == ds[k]);
        lemma_digits_value_nonneg(ds.subrange(0, k));
    } else {
        assert(ds.subrange(0, k) =~= ds);
        lemma_digits_value_nonneg(ds);
    }
}

/// Digit strings have non-negative values.
pub proof fn lemma_digits_value_nonneg(ds: Seq<char>)
    requires
        all_digits(ds),
    ensures
        digits_value(ds) >= 0,
    decreases ds.len(),
{
    if ds.len() > 0 {
        lemma_digits_value_nonneg(ds.drop_last());
    }
}

/// Is `c` an ASCII decimal digit?
pub fn is_digit_char(c: char) -> (res: bool)
    ensures
        res == is_digit(c),
{
    '0' <= c && c <= '9'
}

/// Parses `s` as `str::parse::<i64>` would.
pub fn parse_i64(s: &[char]) -> (res: Option<i64>)
    ensures
        res == spec_parse_i64(s@),
{
    let n = s.len();
    let signed = n > 0 && (s[0] == '+' || s[0] == '-');
    let neg = signed && s[0] == '-';
    let start: usize = if signed { 1 } else { 0 };
    let ghost body = if signed { s@.drop_first() } else { s@ };
    assert(body =~= s@.subrange(start as int, n as int));
    assert(signed == (s@.len() > 0 && (s@[0] == '+' || s@[0] == '-')));
    if start >= n {
        return None;
    }
    let limit: i128 = 9223372036854775808;
    let mut mag: i128 = 0;
    let mut i: usize = start;
    while i < n
        invariant
            start <= i <= n,
            n == s@.len(),
            body == s@.subrange(start as int, n as int),
            signed == (s@.len() > 0 && (s@[0] == '+' || s@[0] == '-')),
            body == (if signed { s@.drop_first() } else { s@ }),
            neg == (signed && s@[0] == '-'),
            all_digits(body.subrange(0, i - start)),
            mag == digits_value(body.subrange(0, i - start)),
            0 <= mag <= limit,
            limit == 9223372036854775808,
        decreases n - i,
    {
        let c = s[i];
        if !is_digit_char(c) {
            assert(body[i - start] == c);
            assert(!is_digit(body[i - start]));
            assert(!all_digits(body));
            assert(spec_parse_i64(s@).is_none());
            return None;
        }
        let ghost pre = body.subrange(0, i - start);
        let ghost now = body.subrange(0, i - start + 1);
        assert(now.drop_last() =~= pre);
        assert(now.last() == c);
        let d = (c as u32 - '0' as u32) as i128;
        mag = 10 * mag + d;
        assert(mag == digits_value(now));
        i = i + 1;
        assert(now == body.subrange(0, i - start));
        if mag > limit {
            proof {
                assert(all_digits(now));
                if all_digits(body) {
                    lemma_digits_value_monotone(body, i - start);
                }
            }
            return None;
        }
    }
    assert(body.subrange(0, n - start) =~= body);
    if neg {
        let v = 0 - mag;
        Some(v as i64)
    } else {
        if mag > 9223372036854775807 {
            return None;
        }
        Some(mag as i64)
    }
}

/// `v` clamped into the `i64` range.
pub open spec fn clamp_i64(v: int) -> i64 {
    if v > i64::MAX {
        i64::MAX
    } else if v < i64::MIN {
        i64::MIN
    } else {
        v as i64
    }
}

/// `i64::saturating_mul`.
pub fn sat_mul(x: i64, y: i64) -> (res: i64)
    ensures
        res == clamp_i64(x * y),
{
    match x.checked_mul(y) {
        Some(v) => v,
        None => {
            if (x < 0) == (y < 0) {
                assert(x * y >= 0) by (nonlinear_arith)
                    requires
                        (x < 0) == (y < 0),
                ;
                i64::MAX
            } else {
                assert(x * y <= 0) by (nonlinear_arith)
                    requires
                        (x < 0) != (y < 0),
                ;
                i64::MIN
            }
        },
    }
}

/// `i64::saturating_add`.
pub fn sat_add(x: i64, y: i64) -> (res: i64)
    ensures
        res == clamp_i64(x + y),
{
    match x.checked_add(y) {
        Some(v) => v,
        None => {
            if y > 0 {
                i64::MAX
            } else {
                i64::MIN
            }
        },
    }
}

/// The text of the error `str::parse::<i64>` reports for `s`.
pub uninterp spec fn int_parse_error_text(s: Seq<char>) -> Seq<char>;

/// The message of `str::parse::<i64>`'s error for `s` (empty when `s`
/// parses).
#[verifier::external_body]
pub(crate) fn int_parse_error_message(s: &str) -> (res: String)
    ensures
        res@ == int_parse_error_text(s@),
{
    match s.parse::<i64>() {
        Ok(_) => String::new(),
        Err(e) => e.to_string(),
    }
}

/// The decimal digit for `d` (`0..=9`).
pub open spec fn digit_char(d: int) -> char {
    (d + 48) as char
}

/// The decimal representation of `n`, without leading zeros.
pub open spec fn decimal(n: nat) -> Seq<char>
    decreases n,
{
    if n < 10 {
        seq![digit_char(n as int)]
    } else {
        decimal(n / 10) + seq![digit_char((n % 10) as int)]
    }
}

/// The decimal representation of a signed integer.
pub open spec fn signed_decimal(n: int) -> Seq<char> {
    if n < 0 {
        seq!['-'] + decimal((-n) as nat)
    } else {
        decimal(n as nat)
    }
}

/// Formats `n` in decimal (what `{}` prints for an unsigned integer).
pub fn format_u64(n: u64) -> (res: String)
    ensures
        res@ == decimal(n as nat),
{
    let mut digits: Vec<char> = Vec::new();
    let mut m: u64 = n;
    // Collect the digits least significant first.
    loop
        invariant_except_break
            m <= n,
            decimal(n as nat) == decimal(m as nat) + digits@.reverse(),
        ensures
            decimal(n as nat) == digits@.reverse(),
        decreases m,
    {
        let d = m % 10;
        let c = ((d + 48) as u8) as char;
        assert(c == digit_char(d as int));
        if m < 10 {
            let ghost before = digits@;
            digits.push(c);
            assert(digits@.reverse() =~= seq![c] + before.reverse());
            assert(decimal(m as nat) == seq![c]);
            assert(decimal(n as nat) =~= digits@.reverse());
            break;
        }
        let ghost before = digits@;
        digits.push(c);
        assert(digits@.reverse() =~= seq![c] + before.reverse());
        assert(decimal(m as nat) == decimal((m / 10) as nat) + seq![c]);
        m = m / 10;
    }
    let mut out = String::new();
    let mut i: usize = digits.len();
    let ghost full = digits@.reverse();
    assert(decimal(n as nat) =~= full);
    while i > 0
        invariant
            i <= digits@.len(),
            full == digits@.reverse(),
            out@ == full.subrange(0, digits@.len() - i),
        decreases i,
    {
        i = i - 1;
        let ghost before = out@;
        out.push(digits[i]);
        assert(full.subrange(0, digits@.len() - i) =~= before.push(digits@[i as int]));
    }
    assert(full.subrange(0, digits@.len() as int) =~= full);
    out
}

/// Formats `n` in decimal (what `{}` prints for a signed integer).
pub fn format_i64(n: i64) -> (res: String)
    ensures
        res@ == signed_decimal(n as int),
{
    if n < 0 {
        let mag: u64 = if n == i64::MIN {
            9223372036854775808u64
        } else {
            (-n) as u64
        };
        let digits = format_u64(mag);
        let mut out = String::new();
        out.push('-');
        out.append(digits.as_str());
        assert(out@ =~= seq!['-'] + decimal((-n) as nat));
        out
    } else {
        format_u64(n as u64)
    }
}

} // verus!
