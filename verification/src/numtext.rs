//! Decimal text for integers: canonical formatting, and parsing with the
//! engine's zero-on-failure policy.

use vstd::prelude::*;
use vstd::arithmetic::mul::lemma_mul_inequality;

verus! {

/// The decimal digit character for `d` in `0..=9`.
pub open spec fn dec_digit(d: int) -> char {
    if d == 0 {
        '0'
    } else if d == 1 {
        '1'
    } else if d == 2 {
        '2'
    } else if d == 3 {
        '3'
    } else if d == 4 {
        '4'
    } else if d == 5 {
        '5'
    } else if d == 6 {
        '6'
    } else if d == 7 {
        '7'
    } else if d == 8 {
        '8'
    } else {
        '9'
    }
}

/// The canonical decimal representation of a natural number: most significant
/// digit first, no leading zeros (except for 0 itself).
pub open spec fn dec_nat(n: nat) -> Seq<char>
    decreases n,
{
    if n < 10 {
        seq![dec_digit(n as int)]
    } else {
        dec_nat(n / 10) + seq![dec_digit((n % 10) as int)]
    }
}

/// The canonical decimal representation of an integer, with a leading `-`
/// for negative values.
pub open spec fn dec_int(v: int) -> Seq<char> {
    if v < 0 {
        seq!['-'] + dec_nat((-v) as nat)
    } else {
        dec_nat(v as nat)
    }
}

/// Whether `c` is a decimal digit.
pub open spec fn is_dec_digit(c: char) -> bool {
    48 <= c as int && c as int <= 57
}

/// The value of a digit character.
pub open spec fn digit_val(c: char) -> int {
    c as int - 48
}

/// Whether every character of `s` is a decimal digit.
pub open spec fn all_digits(s: Seq<char>) -> bool {
    forall|i: int| 0 <= i < s.len() ==> is_dec_digit(s[i])
}

/// The number an all-digit string denotes.
pub open spec fn dec_val(s: Seq<char>) -> int
    decreases s.len(),
{
    if s.len() == 0 {
        0
    } else {
        dec_val(s.drop_last()) * 10 + digit_val(s.last())
    }
}

/// What parsing `s` as an integer yields: an optional single `+` or `-`
/// followed by at least one digit, and nothing else; `None` on any other
/// shape. Mirrors the integer grammar of Rust's `str::parse`.
pub open spec fn parse_int(s: Seq<char>) -> Option<int> {
    if s.len() >= 1 && (s[0] == '+' || s[0] == '-') {
        let body = s.skip(1);
        if body.len() >= 1 && all_digits(body) {
            if s[0] == '-' {
                Some(-dec_val(body))
            } else {
                Some(dec_val(body))
            }
        } else {
            None
        }
    } else {
        if s.len() >= 1 && all_digits(s) {
            Some(dec_val(s))
        } else {
            None
        }
    }
}

/// The zero-on-failure parse policy: the parsed value when it exists and lies
/// in `[lo, hi]`, else 0.
pub open spec fn parse_clamped(s: Seq<char>, lo: int, hi: int) -> int {
    match parse_int(s) {
        Some(v) => if lo <= v && v <= hi {
            v
        } else {
            0
        },
        None => 0,
    }
}

/// The single-character string for a digit.
fn digit_str(d: u64) -> (s: &'static str)
    requires
        d < 10,
    ensures
        s@ == seq![dec_digit(d as int)],
{
    proof {
        reveal_strlit("0");
        reveal_strlit("1");
        reveal_strlit("2");
        reveal_strlit("3");
        reveal_strlit("4");
        reveal_strlit("5");
        reveal_strlit("6");
        reveal_strlit("7");
        reveal_strlit("8");
        reveal_strlit("9");
    }
    let s: &'static str = if d == 0 {
        "0"
    } else if d == 1 {
        "1"
    } else if d == 2 {
        "2"
    } else if d == 3 {
        "3"
    } else if d == 4 {
        "4"
    } else if d == 5 {
        "5"
    } else if d == 6 {
        "6"
    } else if d == 7 {
        "7"
    } else {
        "9"
    };
    let s: &'static str = if d == 8 {
        "8"
    } else {
        s
    };
    assert(s@ =~= seq![dec_digit(d as int)]);
    s
}

/// Formats a natural number in decimal.
pub fn fmt_u64(n: u64) -> (s: String)
    ensures
        s@ == dec_nat(n as nat),
{
    if n == 0 {
        let s = String::from_str("0");
        proof {
            reveal_strlit("0");
            assert(s@ =~= dec_nat(0));
        }
        return s;
    }
    let ghost goal: Seq<char> = dec_nat(n as nat);
    let mut digits: Vec<u64> = Vec::new();
    let mut m: u64 = n;
    while m > 0
        invariant
            forall|j: int| 0 <= j < digits.len() ==> digits[j] < 10,
            m > 0 ==> goal == dec_nat(m as nat) + digits@.map_values(
                |d: u64| dec_digit(d as int),
            ).reverse(),
            m == 0 ==> digits.len() > 0 && goal == digits@.map_values(
                |d: u64| dec_digit(d as int),
            ).reverse(),
            goal == dec_nat(n as nat),
        decreases m,
    {
        let ghost before: Seq<char> = digits@.map_values(|d: u64| dec_digit(d as int)).reverse();
        let d: u64 = m % 10;
        digits.push(d);
        proof {
            let after: Seq<char> = digits@.map_values(|d0: u64| dec_digit(d0 as int)).reverse();
            assert(after =~= seq![dec_digit(d as int)] + before);
        }
        m = m / 10;
    }
    let mut s = String::new();
    let mut i: usize = digits.len();
    let ghost rev: Seq<char> = digits@.map_values(|d: u64| dec_digit(d as int)).reverse();
    while i > 0
        invariant
            i <= digits.len(),
            forall|j: int| 0 <= j < digits.len() ==> digits[j] < 10,
            rev == digits@.map_values(|d: u64| dec_digit(d as int)).reverse(),
            s@ == rev.take(digits.len() - i),
        decreases i,
    {
        i = i - 1;
        let piece: &'static str = digit_str(digits[i]);
        s.append(piece);
        proof {
            assert(rev[digits.len() - 1 - i as int] == dec_digit(digits[i as int] as int));
            assert(s@ =~= rev.take(digits.len() - i));
        }
    }
    proof {
        assert(s@ =~= rev);
    }
    s
}

/// Formats an integer of magnitude below `2^64` in decimal.
pub fn fmt_i128(v: i128) -> (s: String)
    requires
        -0x1_0000_0000_0000_0000 < v < 0x1_0000_0000_0000_0000,
    ensures
        s@ == dec_int(v as int),
{
    if v < 0 {
        let mag: u64 = (-v) as u64;
        let mut s = String::from_str("-");
        proof {
            reveal_strlit("-");
        }
        let tail = fmt_u64(mag);
        s.append(tail.as_str());
        proof {
            assert(s@ =~= dec_int(v as int));
        }
        s
    } else {
        fmt_u64(v as u64)
    }
}

/// Whether `s` spells `true` in any letter case.
pub open spec fn is_true_literal(s: Seq<char>) -> bool {
    s.len() == 4 && (s[0] == 't' || s[0] == 'T') && (s[1] == 'r' || s[1] == 'R') && (s[2] == 'u'
        || s[2] == 'U') && (s[3] == 'e' || s[3] == 'E')
}

/// Decides whether `s` spells `true`, ignoring ASCII letter case.
pub fn parse_bool(s: &str) -> (r: bool)
    ensures
        r == is_true_literal(s@),
{
    if s.unicode_len() != 4 {
        return false;
    }
    let c0: char = s.get_char(0);
    let c1: char = s.get_char(1);
    let c2: char = s.get_char(2);
    let c3: char = s.get_char(3);
    (c0 == 't' || c0 == 'T') && (c1 == 'r' || c1 == 'R') && (c2 == 'u' || c2 == 'U') && (c3 == 'e'
        || c3 == 'E')
}

/// Whether `acc` is the value of a digit prefix saturated at `2^64`.
spec fn tracks_saturated(prefix: int, acc: int) -> bool {
    (prefix < 0x1_0000_0000_0000_0000 && acc == prefix) || (prefix >= 0x1_0000_0000_0000_0000
        && acc == 0x1_0000_0000_0000_0000)
}

/// Parses `s` as an integer under the zero-on-failure policy, clamped to the
/// target range `[lo, hi]`: any string that does not parse, or whose value
/// lies outside the range, yields 0.
pub fn parse_in_range(s: &str, lo: i128, hi: i128) -> (v: i128)
    requires
        -0x1_0000_0000_0000_0000 < lo <= 0 <= hi < 0x1_0000_0000_0000_0000,
    ensures
        v as int == parse_clamped(s@, lo as int, hi as int),
{
    let n: usize = s.unicode_len();
    if n == 0 {
        return 0;
    }
    let first: char = s.get_char(0);
    let neg: bool = first == '-';
    let start: usize = if first == '-' || first == '+' {
        1
    } else {
        0
    };
    let ghost body: Seq<char> = s@.skip(start as int);
    proof {
        if start == 0 {
            assert(body =~= s@);
        }
    }
    if n == start {
        return 0;
    }
    let mut acc: u128 = 0;
    let mut i: usize = start;
    while i < n
        invariant
            start <= i <= n,
            n == s@.len(),
            body == s@.skip(start as int),
            start == 1 ==> (s@[0] == '+' || s@[0] == '-'),
            start == 0 ==> !(s@[0] == '+' || s@[0] == '-'),
            start == 0 ==> body == s@,
            neg == (s@[0] == '-'),
            start <= 1,
            forall|j: int| start <= j < i ==> is_dec_digit(s@[j]),
            acc <= 0x1_0000_0000_0000_0000,
            tracks_saturated(dec_val(s@.subrange(start as int, i as int)), acc as int),
        decreases n - i,
    {
        let c: char = s.get_char(i);
        let code: u32 = c as u32;
        if code < 48 || code > 57 {
            // `s` is not an integer: not every character after the sign is
            // a digit.
            assert(!all_digits(body)) by {
                assert(body[i - start] == s@[i as int]);
                assert(c == s@[i as int]);
                assert(!is_dec_digit(c));
            };
            assert(parse_int(s@) is None);
            return 0;
        }
        let d: u128 = (code - 48) as u128;
        let ghost prefix: int = dec_val(s@.subrange(start as int, i as int));
        let ghost prefix2: int = dec_val(s@.subrange(start as int, i + 1));
        proof {
            assert(s@.subrange(start as int, i + 1).drop_last() =~= s@.subrange(
                start as int,
                i as int,
            ));
            assert(s@.subrange(start as int, i + 1).last() == s@[i as int]);
            assert(prefix2 == prefix * 10 + digit_val(s@[i as int]));
            if prefix >= 0x1_0000_0000_0000_0000 {
                lemma_mul_inequality(1, 10, prefix);
            }
            assert(prefix >= 0);
        }
        let next: u128 = acc * 10 + d;
        if next > 0x1_0000_0000_0000_0000 {
            acc = 0x1_0000_0000_0000_0000;
        } else {
            acc = next;
        }
        i = i + 1;
    }
    proof {
        assert(s@.subrange(start as int, n as int) =~= body);
        assert(all_digits(body));
        assert(parse_int(s@) == Some(if neg { -dec_val(body) } else { dec_val(body) }));
    }
    if acc == 0x1_0000_0000_0000_0000 {
        // The magnitude is at least 2^64, outside every supported range.
        return 0;
    }
    let v: i128 = if neg {
        -(acc as i128)
    } else {
        acc as i128
    };
    if v < lo || v > hi {
        0
    } else {
        v
    }
}

} // verus!
