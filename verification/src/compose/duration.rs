//! Compose-style duration parsing. Output is nanoseconds (the engine's
//! wire unit).

use vstd::prelude::*;
use vstd::string::StringExecFns;

use super::spec::ParseError;
use crate::num::{clamp_i64, is_digit, is_digit_char, parse_i64, sat_add, sat_mul, spec_parse_i64};
use crate::text::{chars_eq, from_chars, to_chars, trim, trim_chars};

verus! {

/// Nanoseconds per unit for the unit names compose accepts.
pub open spec fn unit_multiplier(unit: Seq<char>) -> Option<i64> {
    if unit == "ns"@ {
        Some(1)
    } else if unit == "us"@ || unit == "\u{b5}s"@ {
        Some(1_000)
    } else if unit == "ms"@ {
        Some(1_000_000)
    } else if unit == "s"@ {
        Some(1_000_000_000)
    } else if unit == "m"@ {
        Some(60_000_000_000)
    } else if unit == "h"@ {
        Some(3_600_000_000_000)
    } else {
        None
    }
}

/// One `<number><unit>` component in nanoseconds, saturating.
pub open spec fn spec_consume_unit(num: Seq<char>, unit: Seq<char>) -> Result<i64, Seq<char>> {
    match spec_parse_i64(num) {
        None => Err("bad duration component `"@ + num + unit + "`"@),
        Some(n) => match unit_multiplier(unit) {
            None => Err("unknown duration unit `"@ + unit + "`"@),
            Some(m) => Ok(clamp_i64(n * m)),
        },
    }
}

/// Left-to-right scan of a duration: the saturating total of the
/// components already closed, and the digits and unit of the open one.
/// A digit after a unit closes the open component.
pub open spec fn scan(t: Seq<char>) -> Result<(i64, Seq<char>, Seq<char>), Seq<char>>
    decreases t.len(),
{
    if t.len() == 0 {
        Ok((0, seq![], seq![]))
    } else {
        let c = t.last();
        match scan(t.drop_last()) {
            Err(e) => Err(e),
            Ok((total, num, unit)) => if is_digit(c) {
                if unit.len() > 0 {
                    match spec_consume_unit(num, unit) {
                        Err(e) => Err(e),
                        Ok(v) => Ok((clamp_i64(total + v), seq![c], seq![])),
                    }
                } else {
                    Ok((total, num.push(c), unit))
                }
            } else {
                Ok((total, num, unit.push(c)))
            },
        }
    }
}

/// Compose-style duration in nanoseconds: `1h30m`, `500ms`, `10s`; a
/// bare integer counts seconds. Arithmetic saturates.
pub open spec fn spec_parse_ns(s: Seq<char>) -> Result<i64, Seq<char>> {
    let t = trim(s);
    if t.len() == 0 {
        Err("empty duration"@)
    } else if spec_parse_i64(t) is Some {
        Ok(clamp_i64(spec_parse_i64(t).unwrap() * 1_000_000_000))
    } else {
        match scan(t) {
            Err(e) => Err(e),
            Ok((total, num, unit)) => match spec_consume_unit(num, unit) {
                Err(e) => Err(e),
                Ok(v) => Ok(clamp_i64(total + v)),
            },
        }
    }
}

/// Nanoseconds per unit, by unit name.
fn unit_mult(unit: &[char]) -> (res: Option<i64>)
    ensures
        res == unit_multiplier(unit@),
{
    if chars_eq(unit, to_chars("ns").as_slice()) {
        Some(1)
    } else if chars_eq(unit, to_chars("us").as_slice()) || chars_eq(unit, to_chars("\u{b5}s").as_slice()) {
        Some(1_000)
    } else if chars_eq(unit, to_chars("ms").as_slice()) {
        Some(1_000_000)
    } else if chars_eq(unit, to_chars("s").as_slice()) {
        Some(1_000_000_000)
    } else if chars_eq(unit, to_chars("m").as_slice()) {
        Some(60_000_000_000)
    } else if chars_eq(unit, to_chars("h").as_slice()) {
        Some(3_600_000_000_000)
    } else {
        None
    }
}

/// One `<number><unit>` component in nanoseconds.
fn consume_unit(num: &[char], unit: &[char]) -> (res: Result<i64, ParseError>)
    ensures
        match spec_consume_unit(num@, unit@) {
            Ok(v) => res == Ok::<i64, ParseError>(v),
            Err(m) => res matches Err(e) && e.0@ == m,
        },
{
    let n = match parse_i64(num) {
        Some(n) => n,
        None => {
            let mut msg = String::from_str("bad duration component `");
            msg.append(from_chars(num).as_str());
            msg.append(from_chars(unit).as_str());
            msg.append("`");
            return Err(ParseError(msg));
        },
    };
    let mult = match unit_mult(unit) {
        Some(m) => m,
        None => {
            let mut msg = String::from_str("unknown duration unit `");
            msg.append(from_chars(unit).as_str());
            msg.append("`");
            return Err(ParseError(msg));
        },
    };
    Ok(sat_mul(n, mult))
}

/// Compose-style duration: `1h30m`, `500ms`, `10s`. Bare numbers are
/// interpreted as seconds. Output is nanoseconds.
pub fn parse_ns(s: &str) -> (res: Result<i64, ParseError>)
    ensures
        match spec_parse_ns(s@) {
            Ok(v) => res == Ok::<i64, ParseError>(v),
            Err(m) => res matches Err(e) && e.0@ == m,
        },
{
    let chars = to_chars(s);
    let t = trim_chars(chars.as_slice());
    if t.len() == 0 {
        return Err(ParseError(String::from_str("empty duration")));
    }
    if let Some(n) = parse_i64(t.as_slice()) {
        return Ok(sat_mul(n, 1_000_000_000));
    }
    let mut total: i64 = 0;
    let mut num: Vec<char> = Vec::new();
    let mut unit: Vec<char> = Vec::new();
    let mut i: usize = 0;
    while i < t.len()
        invariant
            i <= t@.len(),
            t@ == trim(s@),
            t@.len() > 0,
            spec_parse_i64(t@) is None,
            scan(t@.subrange(0, i as int)) == Ok::<(i64, Seq<char>, Seq<char>), Seq<char>>(
                (total, num@, unit@),
            ),
        decreases t@.len() - i,
    {
        let ch = t[i];
        let ghost pre = t@.subrange(0, i as int);
        let ghost now = t@.subrange(0, i + 1);
        assert(now.drop_last() =~= pre);
        assert(now.last() == ch);
        if is_digit_char(ch) {
            if unit.len() > 0 {
                let v = match consume_unit(num.as_slice(), unit.as_slice()) {
                    Ok(v) => v,
                    Err(e) => {
                        proof {
                            assert(scan(now) == Err::<(i64, Seq<char>, Seq<char>), Seq<char>>(
                                spec_consume_unit(num@, unit@)->Err_0,
                            ));
                            lemma_scan_err_sticks(t@, i + 1);
                            assert(scan(t@) == scan(now));
                        }
                        return Err(e);
                    },
                };
                total = sat_add(total, v);
                num = Vec::new();
                unit = Vec::new();
                num.push(ch);
                assert(num@ =~= seq![ch]);
            } else {
                num.push(ch);
            }
        } else {
            unit.push(ch);
        }
        i = i + 1;
    }
    assert(t@.subrange(0, t@.len() as int) =~= t@);
    let v = consume_unit(num.as_slice(), unit.as_slice())?;
    Ok(sat_add(total, v))
}

/// Once the scan of a prefix fails, the scan of every extension fails
/// with the same message.
proof fn lemma_scan_err_sticks(t: Seq<char>, k: int)
    requires
        0 <= k <= t.len(),
        scan(t.subrange(0, k)) is Err,
    ensures
        scan(t) == scan(t.subrange(0, k)),
    decreases t.len() - k,
{
    if k < t.len() {
        let now = t.subrange(0, k + 1);
        assert(now.drop_last() =~= t.subrange(0, k));
        lemma_scan_err_sticks(t, k + 1);
    } else {
        assert(t.subrange(0, k) =~= t);
    }
}

} // verus!
