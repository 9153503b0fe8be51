//! Decimal integers as they appear in stop references and durations.
use vstd::prelude::*;

verus! {

pub open spec fn is_digit(c: char) -> bool {
    '0' <= c && c <= '9'
}

pub open spec fn digit_value(c: char) -> nat {
    (c as int - '0' as int) as nat
}

pub open spec fn all_digits(s: Seq<char>) -> bool {
    forall|k: int| 0 <= k < s.len() ==> is_digit(#[trigger] s[k])
}

/// The value of a run of decimal digits.
pub open spec fn digits_value(s: Seq<char>) -> nat
    decreases s.len(),
{
    if s.len() == 0 {
        0
    } else {
        digits_value(s.drop_last()) * 10 + digit_value(s.last())
    }
}

/// The value of a text made of an optional `+` and at least one digit.
pub open spec fn unsigned_decimal(s: Seq<char>) -> Option<nat> {
    if s.len() >= 2 && s[0] == '+' && all_digits(s.skip(1)) {
        Some(digits_value(s.skip(1)))
    } else if s.len() >= 1 && all_digits(s) {
        Some(digits_value(s))
    } else {
        None
    }
}

/// The value of a text made of an optional `+` or `-` and at least one digit.
pub open spec fn signed_decimal(s: Seq<char>) -> Option<int> {
    if s.len() >= 2 && s[0] == '-' && all_digits(s.skip(1)) {
        Some(-digits_value(s.skip(1)))
    } else {
        match unsigned_decimal(s) {
            Some(v) => Some(v as int),
            None => None,
        }
    }
}

/// The `i32` that a text denotes, where it denotes one in range.
pub open spec fn i32_value(s: Seq<char>) -> Option<int> {
    match signed_decimal(s) {
        Some(v) => if i32::MIN <= v <= i32::MAX { Some(v) } else { None },
        None => None,
    }
}

/// The `u32` that a text denotes, where it denotes one in range.
pub open spec fn u32_value(s: Seq<char>) -> Option<nat> {
    match unsigned_decimal(s) {
        Some(v) => if v <= u32::MAX { Some(v) } else { None },
        None => None,
    }
}

pub proof fn lemma_subrange_push(s: Seq<char>, a: int, i: int)
    requires
        0 <= a <= i < s.len(),
    ensures
        s.subrange(a, i + 1).drop_last() == s.subrange(a, i),
        s.subrange(a, i + 1).last() == s[i],
{
    assert(s.subrange(a, i + 1).drop_last() =~= s.subrange(a, i));
}

/// Values above this bound are out of range for both `i32` and `u32`.
const LIMIT: u64 = 4_294_967_296;

spec fn limited(x: int) -> int {
    if x > LIMIT { LIMIT as int } else { x }
}

/// Reads the characters of `s` from `from` on: whether all are digits and,
/// if so, their value or `LIMIT`, whichever is smaller.
fn scan_digits(s: &str, from: usize) -> (r: (bool, u64))
    requires
        from <= s@.len(),
    ensures
        r.0 == all_digits(s@.skip(from as int)),
        r.0 ==> r.1 == limited(digits_value(s@.skip(from as int)) as int),
{
    let n = s.unicode_len();
    let mut value: u64 = 0;
    let mut i: usize = from;
    while i < n
        invariant
            from <= i <= n,
            n == s@.len(),
            all_digits(s@.subrange(from as int, i as int)),
            value == limited(digits_value(s@.subrange(from as int, i as int)) as int),
        decreases n - i,
    {
        let c = s.get_char(i);
        proof {
            lemma_subrange_push(s@, from as int, i as int);
        }
        if !('0' <= c && c <= '9') {
            assert(!all_digits(s@.skip(from as int))) by {
                assert(s@.skip(from as int)[i - from] == c);
            }
            return (false, 0);
        }
        let ghost prev = digits_value(s@.subrange(from as int, i as int)) as int;
        let d = (c as u32 - '0' as u32) as u64;
        assert(limited(limited(prev) * 10 + d) == limited(prev * 10 + d)) by {
            if prev > LIMIT {
                assert(prev * 10 + d > LIMIT) by (nonlinear_arith)
                    requires prev > LIMIT, d >= 0;
            }
        }
        let next = value * 10 + d;
        value = if next > LIMIT { LIMIT } else { next };
        i = i + 1;
        assert(all_digits(s@.subrange(from as int, i as int))) by {
            assert forall|k: int| 0 <= k < s@.subrange(from as int, i as int).len() implies is_digit(
                #[trigger] s@.subrange(from as int, i as int)[k],
            ) by {
                if k < i - 1 - from {
                    assert(s@.subrange(from as int, i - 1)[k] == s@.subrange(from as int, i as int)[k]);
                }
            }
        }
    }
    assert(s@.subrange(from as int, n as int) =~= s@.skip(from as int));
    (true, value)
}

/// Reads a `u32` the way `str::parse::<u32>` does.
pub fn parse_u32(s: &str) -> (r: Option<u32>)
    ensures
        match u32_value(s@) {
            Some(v) => r == Some(v as u32),
            None => r is None,
        },
{
    let n = s.unicode_len();
    if n == 0 {
        return None;
    }
    let first = s.get_char(0);
    let from: usize = if n >= 2 && first == '+' { 1 } else { 0 };
    let (ok, value) = scan_digits(s, from);
    if from == 0 && n >= 2 {
        assert(s@[0] != '+');
    }
    assert(from == 0 ==> s@.skip(0) =~= s@);
    if !ok || value > u32::MAX as u64 {
        return None;
    }
    Some(value as u32)
}

/// Reads an `i32` the way `str::parse::<i32>` does.
pub fn parse_i32(s: &str) -> (r: Option<i32>)
    ensures
        match i32_value(s@) {
            Some(v) => r == Some(v as i32),
            None => r is None,
        },
{
    let n = s.unicode_len();
    if n == 0 {
        return None;
    }
    let first = s.get_char(0);
    let from: usize = if n >= 2 && (first == '+' || first == '-') { 1 } else { 0 };
    let (ok, value) = scan_digits(s, from);
    if from == 0 && (first == '+' || first == '-') {
        assert(!is_digit(s@[0]));
    }
    assert(from == 0 ==> s@.skip(0) =~= s@);
    if !ok {
        return None;
    }
    if first == '-' && from == 1 {
        if value > 2_147_483_648 {
            return None;
        }
        Some((0 - value as i64) as i32)
    } else {
        if value > 2_147_483_647 {
            return None;
        }
        Some(value as i32)
    }
}

/// The digit character of `d`, for `d` below ten.
pub open spec fn digit_char(d: int) -> char {
    if d == 0 {
        '0'
    } else if d == 1 {
        '1'
    } else if d == 2 {
        '2'
    } else if d == 3 {
        '3'
    } else if d == 4 {
        '4'
    } else if d == 5 {
        '5'
    } else if d == 6 {
        '6'
    } else if d == 7 {
        '7'
    } else if d == 8 {
        '8'
    } else {
        '9'
    }
}

/// The decimal digits of `n`, without leading zeros.
pub open spec fn natural_text(n: nat) -> Seq<char>
    decreases n,
{
    if n < 10 {
        seq![digit_char(n as int)]
    } else {
        natural_text(n / 10).push(digit_char(n as int % 10))
    }
}

/// `n` in decimal, with a `-` before a negative number, as `Display` writes
/// an integer.
pub open spec fn decimal_text(n: int) -> Seq<char> {
    if n < 0 {
        seq!['-'] + natural_text((-n) as nat)
    } else {
        natural_text(n as nat)
    }
}

fn digit_str(d: u64) -> (r: &'static str)
    requires
        d < 10,
    ensures
        r@ == seq![digit_char(d as int)],
{
    proof {
        reveal_strlit("0");
        reveal_strlit("1");
        reveal_strlit("2");
        reveal_strlit("3");
        reveal_strlit("4");
        reveal_strlit("5");
        reveal_strlit("6");
        reveal_strlit("7");
        reveal_strlit("8");
        reveal_strlit("9");
    }
    if d == 0 {
        "0"
    } else if d == 1 {
        "1"
    } else if d == 2 {
        "2"
    } else if d == 3 {
        "3"
    } else if d == 4 {
        "4"
    } else if d == 5 {
        "5"
    } else if d == 6 {
        "6"
    } else if d == 7 {
        "7"
    } else if d == 8 {
        "8"
    } else {
        "9"
    }
}

fn append_natural(out: &mut String, n: u64)
    ensures
        final(out)@ == old(out)@ + natural_text(n as nat),
    decreases n,
{
    if n >= 10 {
        append_natural(out, n / 10);
    }
    out.append(digit_str(n % 10));
    assert(final(out)@ =~= old(out)@ + natural_text(n as nat));
}

/// Appends `n` in decimal.
pub fn append_decimal(out: &mut String, n: i64)
    ensures
        final(out)@ == old(out)@ + decimal_text(n as int),
{
    if n < 0 {
        proof {
            reveal_strlit("-");
        }
        out.append("-");
        let magnitude: u64 = if n == i64::MIN { 9_223_372_036_854_775_808 } else { (-n) as u64 };
        append_natural(out, magnitude);
        assert(final(out)@ =~= old(out)@ + decimal_text(n as int));
    } else {
        append_natural(out, n as u64);
    }
}

} // verus!
