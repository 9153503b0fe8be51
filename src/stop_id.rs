//! Stop references: plain numeric station codes, or structured references
//! `<country>:<kind>:<facility>:<number>[:...]` folded into the same code space.
use vstd::prelude::*;
use crate::error::OjpError;
use crate::number::{i32_value, parse_i32, parse_u32, u32_value, lemma_subrange_push};

verus! {

/// What `str::to_lowercase` gives for a text.
pub uninterp spec fn lower_of(s: Seq<char>) -> Seq<char>;

/// Relies on `str::to_lowercase`: its result depends on the characters alone.
#[verifier::external_body]
fn lowercase(s: &str) -> (r: String)
    ensures
        r@ == lower_of(s@),
{
    s.to_lowercase()
}

/// Two-digit transport code of a lower-case two-letter country code.
pub open spec fn uic_of_pair(a: char, b: char) -> Option<i32> {
    match (a, b) {
        ('f', 'i') => Some(10),
        ('r', 'u') => Some(20),
        ('b', 'y') => Some(21),
        ('u', 'a') => Some(22),
        ('m', 'd') => Some(23),
        ('l', 't') => Some(24),
        ('l', 'v') => Some(25),
        ('e', 'e') => Some(26),
        ('k', 'z') => Some(27),
        ('g', 'e') => Some(28),
        ('u', 'z') => Some(29),
        ('k', 'p') => Some(30),
        ('m', 'n') => Some(31),
        ('n', 'n') => Some(32),
        ('c', 'n') => Some(33),
        ('l', 'a') => Some(34),
        ('c', 'u') => Some(40),
        ('a', 'l') => Some(41),
        ('j', 'p') => Some(42),
        ('b', 'a') => Some(44),
        ('p', 'l') => Some(51),
        ('b', 'g') => Some(52),
        ('r', 'o') => Some(53),
        ('c', 'z') => Some(54),
        ('h', 'u') => Some(55),
        ('s', 'k') => Some(56),
        ('a', 'z') => Some(57),
        ('a', 'm') => Some(58),
        ('k', 'g') => Some(59),
        ('i', 'e') => Some(60),
        ('k', 'r') => Some(61),
        ('m', 'e') => Some(62),
        ('m', 'k') => Some(65),
        ('t', 'j') => Some(66),
        ('t', 'm') => Some(67),
        ('a', 'f') => Some(68),
        ('g', 'b') => Some(70),
        ('e', 's') => Some(71),
        ('r', 's') => Some(72),
        ('g', 'r') => Some(73),
        ('s', 'e') => Some(74),
        ('t', 'r') => Some(75),
        ('n', 'o') => Some(76),
        ('h', 'r') => Some(78),
        ('s', 'i') => Some(79),
        ('d', 'e') => Some(80),
        ('a', 't') => Some(81),
        ('l', 'u') => Some(82),
        ('i', 't') => Some(83),
        ('n', 'l') => Some(84),
        ('c', 'h') => Some(85),
        ('d', 'k') => Some(86),
        ('f', 'r') => Some(87),
        ('b', 'e') => Some(88),
        ('t', 'z') => Some(89),
        ('e', 'g') => Some(90),
        ('t', 'n') => Some(91),
        ('d', 'z') => Some(92),
        ('m', 'a') => Some(93),
        ('p', 't') => Some(94),
        ('i', 'l') => Some(95),
        ('i', 'r') => Some(96),
        ('s', 'y') => Some(97),
        ('l', 'b') => Some(98),
        ('i', 'q') => Some(99),
        _ => None,
    }
}

/// Transport code of a lower-case country code.
pub open spec fn country_uic(code: Seq<char>) -> Option<i32> {
    if code.len() == 2 {
        uic_of_pair(code[0], code[1])
    } else {
        None
    }
}

/// Looks up the transport code of a country code that is already in lower case.
pub fn uic_of_lowercase(code: &str) -> (r: Option<i32>)
    ensures
        r == country_uic(code@),
{
    if code.unicode_len() != 2 {
        return None;
    }
    let a = code.get_char(0);
    let b = code.get_char(1);
    match (a, b) {
        ('f', 'i') => Some(10),
        ('r', 'u') => Some(20),
        ('b', 'y') => Some(21),
        ('u', 'a') => Some(22),
        ('m', 'd') => Some(23),
        ('l', 't') => Some(24),
        ('l', 'v') => Some(25),
        ('e', 'e') => Some(26),
        ('k', 'z') => Some(27),
        ('g', 'e') => Some(28),
        ('u', 'z') => Some(29),
        ('k', 'p') => Some(30),
        ('m', 'n') => Some(31),
        ('n', 'n') => Some(32),
        ('c', 'n') => Some(33),
        ('l', 'a') => Some(34),
        ('c', 'u') => Some(40),
        ('a', 'l') => Some(41),
        ('j', 'p') => Some(42),
        ('b', 'a') => Some(44),
        ('p', 'l') => Some(51),
        ('b', 'g') => Some(52),
        ('r', 'o') => Some(53),
        ('c', 'z') => Some(54),
        ('h', 'u') => Some(55),
        ('s', 'k') => Some(56),
        ('a', 'z') => Some(57),
        ('a', 'm') => Some(58),
        ('k', 'g') => Some(59),
        ('i', 'e') => Some(60),
        ('k', 'r') => Some(61),
        ('m', 'e') => Some(62),
        ('m', 'k') => Some(65),
        ('t', 'j') => Some(66),
        ('t', 'm') => Some(67),
        ('a', 'f') => Some(68),
        ('g', 'b') => Some(70),
        ('e', 's') => Some(71),
        ('r', 's') => Some(72),
        ('g', 'r') => Some(73),
        ('s', 'e') => Some(74),
        ('t', 'r') => Some(75),
        ('n', 'o') => Some(76),
        ('h', 'r') => Some(78),
        ('s', 'i') => Some(79),
        ('d', 'e') => Some(80),
        ('a', 't') => Some(81),
        ('l', 'u') => Some(82),
        ('i', 't') => Some(83),
        ('n', 'l') => Some(84),
        ('c', 'h') => Some(85),
        ('d', 'k') => Some(86),
        ('f', 'r') => Some(87),
        ('b', 'e') => Some(88),
        ('t', 'z') => Some(89),
        ('e', 'g') => Some(90),
        ('t', 'n') => Some(91),
        ('d', 'z') => Some(92),
        ('m', 'a') => Some(93),
        ('p', 't') => Some(94),
        ('i', 'l') => Some(95),
        ('i', 'r') => Some(96),
        ('s', 'y') => Some(97),
        ('l', 'b') => Some(98),
        ('i', 'q') => Some(99),
        _ => None,
    }
}

/// Looks up the transport code of a two-letter country code, in any case.
pub fn iso_to_uic(iso: &str) -> (r: Option<i32>)
    ensures
        r == country_uic(lower_of(iso@)),
{
    let lower = lowercase(iso);
    uic_of_lowercase(lower.as_str())
}

/// The fields of a text separated by `:`, as `str::split(':')` gives them.
pub open spec fn split_colon(s: Seq<char>) -> Seq<Seq<char>>
    decreases s.len(),
{
    if s.len() == 0 {
        seq![Seq::empty()]
    } else {
        let p = split_colon(s.drop_last());
        if s.last() == ':' {
            p.push(Seq::empty())
        } else {
            p.update(p.len() - 1, p.last().push(s.last()))
        }
    }
}

pub proof fn lemma_split_nonempty(s: Seq<char>)
    ensures
        split_colon(s).len() >= 1,
    decreases s.len(),
{
    if s.len() > 0 {
        lemma_split_nonempty(s.drop_last());
    }
}

/// Splits a text on `:`.
fn split_colon_fields(s: &str) -> (r: Vec<&str>)
    ensures
        r@.len() == split_colon(s@).len(),
        forall|k: int| 0 <= k < r@.len() ==> (#[trigger] r@[k])@ == split_colon(s@)[k],
{
    let n = s.unicode_len();
    let mut parts: Vec<&str> = Vec::new();
    let mut cur: usize = 0;
    let mut i: usize = 0;
    proof {
        assert(s@.subrange(0, 0) =~= Seq::<char>::empty());
    }
    while i < n
        invariant
            cur <= i <= n,
            n == s@.len(),
            parts@.len() + 1 == split_colon(s@.subrange(0, i as int)).len(),
            forall|k: int|
                0 <= k < parts@.len() ==> (#[trigger] parts@[k])@ == split_colon(
                    s@.subrange(0, i as int),
                )[k],
            split_colon(s@.subrange(0, i as int)).last() == s@.subrange(cur as int, i as int),
        decreases n - i,
    {
        let c = s.get_char(i);
        proof {
            lemma_subrange_push(s@, 0, i as int);
            lemma_subrange_push(s@, cur as int, i as int);
            lemma_split_nonempty(s@.subrange(0, i as int));
        }
        if c == ':' {
            let field = s.substring_char(cur, i);
            parts.push(field);
            cur = i + 1;
            proof {
                assert(s@.subrange(cur as int, i + 1) =~= Seq::<char>::empty());
            }
        }
        i = i + 1;
    }
    proof {
        assert(s@.subrange(0, n as int) =~= s@);
    }
    let last = s.substring_char(cur, n);
    parts.push(last);
    parts
}

/// The smallest power of ten that is at least `100000` and above `n`: what a
/// prefix is scaled by when `n` follows it written with at least five digits.
pub open spec fn pad_scale(n: nat) -> nat
    decreases n,
{
    if n < 100000 {
        100000
    } else {
        10 * pad_scale(n / 10)
    }
}

/// The code made of a transport code followed by a local number written with
/// at least five digits.
pub open spec fn station_code(uic: int, local: nat) -> int {
    uic * pad_scale(local) + local
}

proof fn lemma_pad_scale_bound(n: nat)
    ensures
        pad_scale(n) <= 100000 || pad_scale(n) <= 10 * n,
        pad_scale(n) >= 100000,
    decreases n,
{
    if n >= 100000 {
        lemma_pad_scale_bound(n / 10);
    }
}

fn pad_scale_of(n: u32) -> (r: u64)
    ensures
        r == pad_scale(n as nat),
        r <= 42_949_672_950,
    decreases n,
{
    proof {
        lemma_pad_scale_bound(n as nat);
    }
    if n < 100000 {
        100000
    } else {
        10 * pad_scale_of(n / 10)
    }
}

/// What the fields of a structured reference give: `iso` its country code in
/// lower case, `sloid` the whole reference, `local` its fourth field.
pub open spec fn fields_outcome(
    iso: Seq<char>,
    sloid: Seq<char>,
    local: Seq<char>,
    r: Result<i32, OjpError>,
) -> bool {
    match country_uic(iso) {
        None => r matches Err(OjpError::FailedToConvertIsoCode(t)) && t@ == iso,
        Some(uic) => match u32_value(local) {
            None => r matches Err(OjpError::MalformedSloid(t)) && t@ == sloid,
            Some(n) => {
                let code = station_code(uic as int, n);
                if code <= i32::MAX {
                    r == Ok::<i32, OjpError>(code as i32)
                } else {
                    r matches Err(OjpError::ParseInt(t)) && t@ == local
                }
            },
        },
    }
}

/// What folding a structured reference gives: its code, or the error, with
/// the text that the error carries.
pub open spec fn sloid_outcome(s: Seq<char>, r: Result<i32, OjpError>) -> bool {
    let parts = split_colon(s);
    if parts.len() < 4 {
        r matches Err(OjpError::MalformedSloid(t)) && t@ == s
    } else {
        fields_outcome(lower_of(parts[0]), s, parts[3], r)
    }
}

/// The code of a structured reference, where folding it succeeds.
pub open spec fn sloid_code(s: Seq<char>) -> Option<int> {
    let parts = split_colon(s);
    if parts.len() < 4 {
        None
    } else {
        match country_uic(lower_of(parts[0])) {
            None => None,
            Some(uic) => match u32_value(parts[3]) {
                None => None,
                Some(local) => {
                    let code = station_code(uic as int, local);
                    if code <= i32::MAX { Some(code) } else { None }
                },
            },
        }
    }
}

/// Folds the fields of a structured reference into a numeric station code:
/// the transport code of the lower-case country code `iso`, followed by the
/// number `local` written with at least five digits. `sloid` is the whole
/// reference, which a malformed number reports.
pub fn didok_from_fields(iso: String, sloid: &str, local: &str) -> (r: Result<i32, OjpError>)
    ensures
        fields_outcome(iso@, sloid@, local@, r),
{
    let uic = match uic_of_lowercase(iso.as_str()) {
        Some(u) => u,
        None => {
            return Err(OjpError::FailedToConvertIsoCode(iso));
        },
    };
    let number = match parse_u32(local) {
        Some(v) => v,
        None => {
            return Err(OjpError::MalformedSloid(sloid.to_string()));
        },
    };
    let scale = pad_scale_of(number);
    assert((uic as u64) * scale <= 99 * 42_949_672_950) by (nonlinear_arith)
        requires
            10 <= uic <= 99,
            scale <= 42_949_672_950,
    ;
    let code = (uic as u64) * scale + number as u64;
    if code > i32::MAX as u64 {
        return Err(OjpError::ParseInt(local.to_string()));
    }
    Ok(code as i32)
}

/// Folds a structured stop reference into a numeric station code.
pub fn sloid_to_didok(sloid: &str) -> (r: Result<i32, OjpError>)
    ensures
        sloid_outcome(sloid@, r),
{
    let parts = split_colon_fields(sloid);
    if parts.len() < 4 {
        return Err(OjpError::MalformedSloid(sloid.to_string()));
    }
    let iso = lowercase(parts[0]);
    didok_from_fields(iso, sloid, parts[3])
}

/// What a stop reference stands for: itself where it is a number, else the
/// code of the structured reference.
pub open spec fn stop_ref_outcome(s: Seq<char>, r: Result<i32, OjpError>) -> bool {
    match i32_value(s) {
        Some(v) => r == Ok::<i32, OjpError>(v as i32),
        None => sloid_outcome(s, r),
    }
}

/// The station code of a stop reference, where it has one.
pub open spec fn stop_code(s: Seq<char>) -> Option<int> {
    match i32_value(s) {
        Some(v) => Some(v),
        None => sloid_code(s),
    }
}

/// Normalizing succeeds exactly where the reference has a station code, and
/// gives that code.
pub proof fn lemma_outcome_code(s: Seq<char>, r: Result<i32, OjpError>)
    requires
        stop_ref_outcome(s, r),
    ensures
        r is Ok <==> stop_code(s) is Some,
        r matches Ok(v) ==> stop_code(s) == Some(v as int),
{
}

/// Normalizes a stop reference to a numeric station code.
pub fn normalize_stop_ref(reference: &str) -> (r: Result<i32, OjpError>)
    ensures
        stop_ref_outcome(reference@, r),
{
    match parse_i32(reference) {
        Some(v) => Ok(v),
        None => sloid_to_didok(reference),
    }
}

} // verus!
