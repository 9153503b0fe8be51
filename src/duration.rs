//! The duration grammar of the protocol: `PT` (or `-PT`) followed by groups
//! of decimal digits, each closed by one of the unit letters `H`, `M`, `S`.
use vstd::prelude::*;
use crate::number::{digits_value, is_digit, lemma_subrange_push};

verus! {

/// Largest magnitude, in seconds, that a decoded duration may have: the
/// span of an elapsed time counted in milliseconds by a signed 64-bit value.
pub const MAX_DURATION_SECONDS: i64 = 9_223_372_036_854_775;

/// Why a duration text was refused.
#[derive(Debug, Clone, Copy, PartialEq, Eq)]
pub enum DurationError {
    /// The text starts with neither `PT` nor `-PT`.
    MissingPrefix,
    /// Nothing follows the prefix.
    EmptyBody,
    /// A unit letter (or another non-digit) stands where digits were due.
    MissingNumber,
    /// A non-digit that is not one of `H`, `M`, `S` closes a group of digits.
    InvalidUnit,
    /// The text ends with digits that no unit letter closes.
    TrailingNumber,
    /// The total exceeds `MAX_DURATION_SECONDS` in magnitude.
    OutOfRange,
}

/// Seconds that one count of a unit letter stands for.
pub open spec fn unit_seconds(c: char) -> Option<nat> {
    if c == 'H' {
        Some(3600)
    } else if c == 'M' {
        Some(60)
    } else if c == 'S' {
        Some(1)
    } else {
        None
    }
}

/// The state after reading the text behind the prefix from left to right:
/// the seconds of the groups closed so far, and the digits read since the
/// last unit letter.
pub open spec fn scan(s: Seq<char>) -> Result<(nat, Seq<char>), DurationError>
    decreases s.len(),
{
    if s.len() == 0 {
        Ok((0, Seq::empty()))
    } else {
        match scan(s.drop_last()) {
            Err(e) => Err(e),
            Ok((total, pending)) => {
                let c = s.last();
                if is_digit(c) {
                    Ok((total, pending.push(c)))
                } else if pending.len() == 0 {
                    Err(DurationError::MissingNumber)
                } else {
                    match unit_seconds(c) {
                        None => Err(DurationError::InvalidUnit),
                        Some(u) => Ok((total + digits_value(pending) * u, Seq::empty())),
                    }
                }
            },
        }
    }
}

/// The signed seconds of the text behind the prefix.
pub open spec fn body_seconds(s: Seq<char>, sign: int) -> Result<int, DurationError> {
    if s.len() == 0 {
        Err(DurationError::EmptyBody)
    } else {
        match scan(s) {
            Err(e) => Err(e),
            Ok((total, pending)) => {
                if pending.len() > 0 {
                    Err(DurationError::TrailingNumber)
                } else if total > MAX_DURATION_SECONDS {
                    Err(DurationError::OutOfRange)
                } else {
                    Ok(sign * total)
                }
            },
        }
    }
}

/// The signed seconds that a duration text stands for.
pub open spec fn duration_seconds(s: Seq<char>) -> Result<int, DurationError> {
    if s.len() >= 2 && s[0] == 'P' && s[1] == 'T' {
        body_seconds(s.skip(2), 1)
    } else if s.len() >= 3 && s[0] == '-' && s[1] == 'P' && s[2] == 'T' {
        body_seconds(s.skip(3), -1)
    } else {
        Err(DurationError::MissingPrefix)
    }
}

/// One above `MAX_DURATION_SECONDS`: totals and digit values are kept up
/// to this bound, past which only the fact that it was passed matters.
const CAP: u64 = 9_223_372_036_854_776;

spec fn capped(x: int) -> int {
    if x > CAP { CAP as int } else { x }
}

fn unit_of(c: char) -> (r: Option<u64>)
    ensures
        r matches Some(u) ==> unit_seconds(c) == Some(u as nat),
        r is None ==> unit_seconds(c) is None,
{
    if c == 'H' {
        Some(3600)
    } else if c == 'M' {
        Some(60)
    } else if c == 'S' {
        Some(1)
    } else {
        None
    }
}

proof fn lemma_capped_digit(a: int, d: int)
    requires
        0 <= a,
        0 <= d <= 9,
    ensures
        capped(capped(a) * 10 + d) == capped(a * 10 + d),
{
    if a > CAP {
        assert(a * 10 + d > CAP) by (nonlinear_arith)
            requires a > CAP, d >= 0;
        assert(capped(a) * 10 + d > CAP);
    }
}

proof fn lemma_capped_group(t: int, p: int, u: int)
    requires
        0 <= t,
        0 <= p,
        1 <= u,
    ensures
        capped(capped(t) + capped(capped(p) * u)) == capped(t + p * u),
{
    if p > CAP {
        assert(p * u > CAP) by (nonlinear_arith)
            requires p > CAP, u >= 1;
        assert(CAP * u >= CAP) by (nonlinear_arith)
            requires u >= 1;
    }
    assert(p * u >= 0) by (nonlinear_arith)
        requires p >= 0, u >= 1;
    if p <= CAP {
        assert(capped(p) == p);
    }
}

proof fn lemma_scan_error_extends(s: Seq<char>, k: int)
    requires
        0 <= k <= s.len(),
        scan(s.take(k)) is Err,
    ensures
        scan(s) == scan(s.take(k)),
    decreases s.len() - k,
{
    if k < s.len() {
        assert(s.take(k + 1).drop_last() =~= s.take(k));
        lemma_scan_error_extends(s, k + 1);
    } else {
        assert(s.take(k) =~= s);
    }
}

/// Decodes a duration text into signed seconds.
pub fn deserialize(s: &str) -> (r: Result<i64, DurationError>)
    ensures
        match duration_seconds(s@) {
            Ok(v) => r == Ok::<i64, DurationError>(v as i64),
            Err(e) => r == Err::<i64, DurationError>(e),
        },
        r matches Ok(v) ==> -MAX_DURATION_SECONDS <= v <= MAX_DURATION_SECONDS,
{
    let n = s.unicode_len();
    let (start, negative): (usize, bool) = if n >= 2 && s.get_char(0) == 'P' && s.get_char(1)
        == 'T' {
        (2, false)
    } else if n >= 3 && s.get_char(0) == '-' && s.get_char(1) == 'P' && s.get_char(2) == 'T' {
        (3, true)
    } else {
        return Err(DurationError::MissingPrefix);
    };
    let ghost body = s@.skip(start as int);
    if start == n {
        return Err(DurationError::EmptyBody);
    }
    let mut total: u64 = 0;
    let mut pending: u64 = 0;
    let mut pending_len: usize = 0;
    let mut i: usize = start;
    while i < n
        invariant
            start <= i <= n,
            pending_len <= i - start,
            n == s@.len(),
            body == s@.skip(start as int),
            duration_seconds(s@) == body_seconds(body, if negative { -1 } else { 1 }),
            total <= CAP,
            pending <= CAP,
            scan(s@.subrange(start as int, i as int)) matches Ok((t, p)) && total == capped(t as int)
                && pending == capped(digits_value(p) as int) && pending_len == p.len(),
        decreases n - i,
    {
        let ghost prev = s@.subrange(start as int, i as int);
        let c = s.get_char(i);
        proof {
            lemma_subrange_push(s@, start as int, i as int);
            reveal_with_fuel(scan, 2);
        }
        let ghost p = scan(prev)->Ok_0.1;
        let ghost t = scan(prev)->Ok_0.0;
        if '0' <= c && c <= '9' {
            let d = (c as u32 - '0' as u32) as u64;
            proof {
                lemma_capped_digit(digits_value(p) as int, d as int);
                assert(p.push(c).drop_last() =~= p);
            }
            let next = pending * 10 + d;
            pending = if next > CAP { CAP } else { next };
            pending_len = pending_len + 1;
        } else if pending_len == 0 {
            proof {
                assert(body.take(i - start + 1) =~= s@.subrange(start as int, i + 1));
                lemma_scan_error_extends(body, i - start + 1);
            }
            return Err(DurationError::MissingNumber);
        } else {
            match unit_of(c) {
                None => {
                    proof {
                        assert(body.take(i - start + 1) =~= s@.subrange(start as int, i + 1));
                        lemma_scan_error_extends(body, i - start + 1);
                    }
                    return Err(DurationError::InvalidUnit);
                },
                Some(u) => {
                    proof {
                        lemma_capped_group(t as int, digits_value(p) as int, u as int);
                    }
                    assert(u <= 3600);
                    assert((pending as u128) * (u as u128) <= CAP * 3600) by (nonlinear_arith)
                        requires
                            pending <= CAP,
                            u <= 3600,
                    ;
                    let product = (pending as u128) * (u as u128);
                    let part: u64 = if product > CAP as u128 { CAP } else { product as u64 };
                    let sum = total + part;
                    total = if sum > CAP { CAP } else { sum };
                    pending = 0;
                    pending_len = 0;
                },
            }
        }
        i = i + 1;
    }
    assert(s@.subrange(start as int, n as int) =~= body);
    if pending_len > 0 {
        return Err(DurationError::TrailingNumber);
    }
    if total > MAX_DURATION_SECONDS as u64 {
        return Err(DurationError::OutOfRange);
    }
    let magnitude = total as i64;
    if negative {
        Ok(-magnitude)
    } else {
        Ok(magnitude)
    }
}

} // verus!
