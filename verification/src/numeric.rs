//! Decimal rendering and parsing of the small unsigned values that cross
//! the crate's boundary: page numbers and page sizes on the way out, the
//! configured API port on the way in.

use vstd::prelude::*;

use crate::normalize::{all_digits, is_digit_char};

verus! {

/// The ASCII digit character for `d`.
pub open spec fn spec_digit_char(d: int) -> char
    recommends
        0 <= d < 10,
{
    if d == 0 {
        '0'
    } else if d == 1 {
        '1'
    } else if d == 2 {
        '2'
    } else if d == 3 {
        '3'
    } else if d == 4 {
        '4'
    } else if d == 5 {
        '5'
    } else if d == 6 {
        '6'
    } else if d == 7 {
        '7'
    } else if d == 8 {
        '8'
    } else {
        '9'
    }
}

/// Decimal representation of a non-negative integer: no sign, no leading
/// zeros, a single zero for 0.
pub open spec fn spec_decimal(n: int) -> Seq<char>
    recommends
        n >= 0,
    decreases n,
{
    if n < 10 {
        seq![spec_digit_char(n)]
    } else {
        spec_decimal(n / 10).push(spec_digit_char(n % 10))
    }
}

/// The numeric value of one ASCII digit character.
pub open spec fn spec_digit_val(c: char) -> int {
    c as int - '0' as int
}

/// The value of a digit string read in base ten.
pub open spec fn spec_digits_value(s: Seq<char>) -> int
    decreases s.len(),
{
    if s.len() == 0 {
        0
    } else {
        spec_digits_value(s.drop_last()) * 10 + spec_digit_val(s.last())
    }
}

proof fn lemma_digits_value_nonneg(s: Seq<char>)
    requires
        all_digits(s),
    ensures
        spec_digits_value(s) >= 0,
    decreases s.len(),
{
    if s.len() > 0 {
        assert(all_digits(s.drop_last())) by {
            assert(forall|i: int|
                0 <= i < s.drop_last().len() ==> s.drop_last()[i] == #[trigger] s[i]);
        }
        lemma_digits_value_nonneg(s.drop_last());
    }
}

/// Reading further digits never decreases the value.
proof fn lemma_digits_value_prefix(d: Seq<char>, i: int)
    requires
        all_digits(d),
        0 <= i <= d.len(),
    ensures
        spec_digits_value(d.subrange(0, i)) <= spec_digits_value(d),
    decreases d.len() - i,
{
    if i < d.len() {
        assert(all_digits(d.subrange(0, i))) by {
            assert(forall|j: int|
                0 <= j < d.subrange(0, i).len() ==> d.subrange(0, i)[j] == #[trigger] d[j]);
        }
        lemma_digits_value_nonneg(d.subrange(0, i));
        assert(d.subrange(0, i + 1) =~= d.subrange(0, i).push(d[i]));
        assert(d.subrange(0, i + 1).drop_last() =~= d.subrange(0, i));
        lemma_digits_value_prefix(d, i + 1);
    } else {
        assert(d.subrange(0, i) =~= d);
    }
}

/// One ASCII digit as a string slice.
fn digit_str(d: u32) -> (s: &'static str)
    requires
        d < 10,
    ensures
        s@ == seq![spec_digit_char(d as int)],
{
    proof {
        reveal_strlit("0");
        reveal_strlit("1");
        reveal_strlit("2");
        reveal_strlit("3");
        reveal_strlit("4");
        reveal_strlit("5");
        reveal_strlit("6");
        reveal_strlit("7");
        reveal_strlit("8");
        reveal_strlit("9");
    }
    let s = match d {
        0 => "0",
        1 => "1",
        2 => "2",
        3 => "3",
        4 => "4",
        5 => "5",
        6 => "6",
        7 => "7",
        8 => "8",
        _ => "9",
    };
    proof {
        assert(s@ =~= seq![spec_digit_char(d as int)]);
    }
    s
}

/// Render an unsigned value in decimal.
pub fn u32_to_string(n: u32) -> (s: String)
    ensures
        s@ == spec_decimal(n as int),
    decreases n,
{
    if n < 10 {
        String::from_str(digit_str(n))
    } else {
        let mut s = u32_to_string(n / 10);
        s.append(digit_str(n % 10));
        proof {
            assert(s@ =~= spec_decimal(n as int / 10).push(spec_digit_char(n as int % 10)));
        }
        s
    }
}

/// The digit part of a candidate unsigned decimal: an optional leading
/// `+` is allowed, as the standard integer parser allows it.
pub open spec fn spec_u16_digits(s: Seq<char>) -> Seq<char> {
    if s.len() > 0 && s[0] == '+' {
        s.drop_first()
    } else {
        s
    }
}

/// What parsing a 16-bit unsigned decimal yields: the value when the
/// digit part is non-empty, all digits, and at most 65535; nothing
/// otherwise.
pub open spec fn spec_parse_u16(s: Seq<char>) -> Option<u16> {
    let d = spec_u16_digits(s);
    if d.len() > 0 && all_digits(d) && spec_digits_value(d) <= 65535 {
        Some(spec_digits_value(d) as u16)
    } else {
        None
    }
}

/// Parse a 16-bit unsigned decimal, accepting exactly what
/// `spec_parse_u16` describes.
pub fn parse_u16(s: &str) -> (r: Option<u16>)
    ensures
        r == spec_parse_u16(s@),
{
    let ghost d = spec_u16_digits(s@);
    let n = s.unicode_len();
    if n == 0 {
        return None;
    }
    let first = s.get_char(0);
    let start: usize = if first == '+' {
        1
    } else {
        0
    };
    proof {
        assert(d =~= s@.subrange(start as int, n as int));
    }
    if n == start {
        return None;
    }
    let mut acc: u32 = 0;
    let mut i: usize = start;
    while i < n
        invariant
            n == s@.len(),
            start <= i <= n,
            d == spec_u16_digits(s@),
            d =~= s@.subrange(start as int, n as int),
            acc <= 65535,
            all_digits(s@.subrange(start as int, i as int)),
            acc == spec_digits_value(s@.subrange(start as int, i as int)),
        decreases n - i,
    {
        let c = s.get_char(i);
        if !('0' <= c && c <= '9') {
            proof {
                assert(d[i - start] == s@[i as int]);
                assert(!all_digits(d));
            }
            return None;
        }
        let dv = (c as u32) - 48;
        proof {
            assert(s@.subrange(start as int, i + 1) =~= s@.subrange(start as int, i as int).push(
                s@[i as int],
            ));
            assert(s@.subrange(start as int, i + 1).drop_last() =~= s@.subrange(
                start as int,
                i as int,
            ));
        }
        acc = acc * 10 + dv;
        if acc > 65535 {
            proof {
                if all_digits(d) {
                    assert(d.subrange(0, i + 1 - start) =~= s@.subrange(start as int, i + 1));
                    lemma_digits_value_prefix(d, i + 1 - start);
                }
            }
            return None;
        }
        i = i + 1;
    }
    proof {
        assert(s@.subrange(start as int, n as int) =~= d);
    }
    Some(acc as u16)
}

} // verus!
