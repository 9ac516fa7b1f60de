//! Identifier normalization: canonical forms for business-registration
//! numbers and administrative-region codes.
//!
//! Business numbers are left-padded with zeros to ten digits; region codes
//! are right-padded, because a region code encodes coarser-to-finer
//! geography left to right and trailing zeros mean "unspecified finer
//! subdivision".  Both functions are total: malformed input still yields a
//! deterministic ten-character digit string.

use vstd::prelude::*;

verus! {

/// One of the ten ASCII digit characters.
pub open spec fn is_digit_char(c: char) -> bool {
    '0' <= c && c <= '9'
}

/// The digit characters of `s`, in order, all others removed.
pub open spec fn digits_of(s: Seq<char>) -> Seq<char> {
    s.filter(|c: char| is_digit_char(c))
}

/// `n` zero characters.
pub open spec fn zeros(n: nat) -> Seq<char> {
    Seq::new(n, |i: int| '0')
}

/// Left-pad with zeros to ten characters; longer inputs are unchanged.
pub open spec fn left_pad_ten(s: Seq<char>) -> Seq<char> {
    if s.len() >= 10 {
        s
    } else {
        zeros((10 - s.len()) as nat) + s
    }
}

/// Right-pad with zeros to ten characters; longer inputs are unchanged.
pub open spec fn right_pad_ten(s: Seq<char>) -> Seq<char> {
    if s.len() >= 10 {
        s
    } else {
        s + zeros((10 - s.len()) as nat)
    }
}

/// Canonical business-registration number: digits only, left-padded.
pub open spec fn spec_normalize_biz_no(s: Seq<char>) -> Seq<char> {
    left_pad_ten(digits_of(s))
}

/// Canonical administrative-region code: digits only, right-padded.
pub open spec fn spec_normalize_bjd_code(s: Seq<char>) -> Seq<char> {
    right_pad_ten(digits_of(s))
}

pub open spec fn all_digits(s: Seq<char>) -> bool {
    forall|i: int| 0 <= i < s.len() ==> is_digit_char(#[trigger] s[i])
}

/// Removing non-digits commutes with appending one character.
proof fn lemma_digits_of_push(s: Seq<char>, c: char)
    ensures
        is_digit_char(c) ==> digits_of(s.push(c)) == digits_of(s).push(c),
        !is_digit_char(c) ==> digits_of(s.push(c)) == digits_of(s),
{
    reveal(Seq::filter);
    assert(s.push(c).drop_last() =~= s);
    assert(s.push(c).last() == c);
}

/// A string of digits is left fixed by the digit filter.
proof fn lemma_digits_of_all_digits(s: Seq<char>)
    requires
        all_digits(s),
    ensures
        digits_of(s) == s,
    decreases s.len(),
{
    reveal(Seq::filter);
    if s.len() > 0 {
        assert(all_digits(s.drop_last())) by {
            assert(forall|i: int|
                0 <= i < s.drop_last().len() ==> s.drop_last()[i] == #[trigger] s[i]);
        }
        lemma_digits_of_all_digits(s.drop_last());
        assert(digits_of(s) =~= s);
    } else {
        assert(digits_of(s) =~= s);
    }
}

proof fn lemma_digits_of_has_digits(s: Seq<char>)
    ensures
        all_digits(digits_of(s)),
{
    broadcast use vstd::seq_lib::group_filter_ensures;

    assert(forall|i: int| 0 <= i < digits_of(s).len() ==> is_digit_char(#[trigger] digits_of(s)[i]))
        by {
        assert forall|i: int| 0 <= i < digits_of(s).len() implies is_digit_char(
            #[trigger] digits_of(s)[i],
        ) by {
            s.lemma_filter_pred(|c: char| is_digit_char(c), i);
        }
    }
}

/// Every character of a normalized business number is a digit, and the
/// result is never shorter than ten characters.
pub proof fn lemma_normalize_biz_no_shape(s: Seq<char>)
    ensures
        spec_normalize_biz_no(s).len() >= 10,
        all_digits(spec_normalize_biz_no(s)),
{
    lemma_digits_of_has_digits(s);
}

/// Every character of a normalized region code is a digit, and the result
/// is never shorter than ten characters.
pub proof fn lemma_normalize_bjd_code_shape(s: Seq<char>)
    ensures
        spec_normalize_bjd_code(s).len() >= 10,
        all_digits(spec_normalize_bjd_code(s)),
{
    lemma_digits_of_has_digits(s);
}

/// Normalizing a business number a second time changes nothing.
pub proof fn lemma_normalize_biz_no_idempotent(s: Seq<char>)
    ensures
        spec_normalize_biz_no(spec_normalize_biz_no(s)) == spec_normalize_biz_no(s),
{
    lemma_normalize_biz_no_shape(s);
    lemma_digits_of_all_digits(spec_normalize_biz_no(s));
}

/// Normalizing a region code a second time changes nothing.
pub proof fn lemma_normalize_bjd_code_idempotent(s: Seq<char>)
    ensures
        spec_normalize_bjd_code(spec_normalize_bjd_code(s)) == spec_normalize_bjd_code(s),
{
    lemma_normalize_bjd_code_shape(s);
    lemma_digits_of_all_digits(spec_normalize_bjd_code(s));
}

/// Collect the digit characters of `raw` into a fresh string.
fn collect_digits(raw: &str) -> (r: String)
    ensures
        r@ == digits_of(raw@),
{
    let n = raw.unicode_len();
    let mut out = String::new();
    let mut i: usize = 0;
    while i < n
        invariant
            n == raw@.len(),
            i <= n,
            out@ == digits_of(raw@.subrange(0, i as int)),
        decreases n - i,
    {
        let c = raw.get_char(i);
        if '0' <= c && c <= '9' {
            let piece = raw.substring_char(i, i + 1);
            out.append(piece);
            proof {
                assert(piece@ =~= seq![raw@[i as int]]);
            }
        }
        proof {
            assert(raw@.subrange(0, i + 1) =~= raw@.subrange(0, i as int).push(raw@[i as int]));
            lemma_digits_of_push(raw@.subrange(0, i as int), raw@[i as int]);
        }
        i = i + 1;
    }
    proof {
        assert(raw@.subrange(0, n as int) =~= raw@);
    }
    out
}

/// Canonicalize a raw business-registration number: strip every non-digit
/// character, then left-pad with zeros to ten characters.
pub fn normalize_biz_no(raw: &str) -> (r: String)
    ensures
        r@ == spec_normalize_biz_no(raw@),
{
    let digits = collect_digits(raw);
    let len = digits.as_str().unicode_len();
    if len >= 10 {
        digits
    } else {
        let mut out = String::new();
        let mut k: usize = len;
        while k < 10
            invariant
                len <= k <= 10,
                len == digits_of(raw@).len(),
                out@ == zeros((k - len) as nat),
            decreases 10 - k,
        {
            out.append("0");
            proof {
                reveal_strlit("0");
                assert(out@ =~= zeros((k + 1 - len) as nat));
            }
            k = k + 1;
        }
        out.append(digits.as_str());
        out
    }
}

/// Canonicalize a raw administrative-region code: strip every non-digit
/// character, then right-pad with zeros to ten characters.
pub fn normalize_bjd_code(raw: &str) -> (r: String)
    ensures
        r@ == spec_normalize_bjd_code(raw@),
{
    let mut out = collect_digits(raw);
    let len = out.as_str().unicode_len();
    let mut k: usize = len;
    while k < 10
        invariant
            k >= len,
            k <= 10 || k == len,
            len == digits_of(raw@).len(),
            out@ == digits_of(raw@) + zeros((k - len) as nat),
        decreases 10 - k,
    {
        out.append("0");
        proof {
            reveal_strlit("0");
            assert(out@ =~= digits_of(raw@) + zeros((k + 1 - len) as nat));
        }
        k = k + 1;
    }
    proof {
        if len >= 10 {
            assert(out@ =~= digits_of(raw@));
        }
    }
    out
}

/// The district-level (sigungu) prefix: the first five characters of the
/// normalized region code.
pub fn extract_sigungu_code(bjd_code: &str) -> (r: String)
    ensures
        r@ == spec_normalize_bjd_code(bjd_code@).subrange(0, 5),
{
    let normalized = normalize_bjd_code(bjd_code);
    proof {
        lemma_normalize_bjd_code_shape(bjd_code@);
    }
    let prefix = normalized.as_str().substring_char(0, 5);
    String::from_str(prefix)
}

/// The administrative province code a pension-registry province code
/// maps to: most codes map to themselves, two legacy codes both resolve
/// to the present-day province 39, and codes outside the table map to
/// nothing.
pub open spec fn spec_nps_sido_to_bjd(s: Seq<char>) -> Option<Seq<char>> {
    if s == "11"@ {
        Some("11"@)
    } else if s == "26"@ {
        Some("26"@)
    } else if s == "27"@ {
        Some("27"@)
    } else if s == "28"@ {
        Some("28"@)
    } else if s == "29"@ {
        Some("29"@)
    } else if s == "30"@ {
        Some("30"@)
    } else if s == "31"@ {
        Some("31"@)
    } else if s == "36"@ {
        Some("36"@)
    } else if s == "41"@ {
        Some("41"@)
    } else if s == "42"@ {
        Some("42"@)
    } else if s == "43"@ {
        Some("43"@)
    } else if s == "44"@ {
        Some("44"@)
    } else if s == "45"@ {
        Some("45"@)
    } else if s == "46"@ {
        Some("46"@)
    } else if s == "47"@ {
        Some("47"@)
    } else if s == "48"@ {
        Some("48"@)
    } else if s == "50"@ || s == "39"@ {
        Some("39"@)
    } else {
        None
    }
}

/// Translate a pension-registry 2-digit provincial code into the
/// administrative province code, or nothing for a code outside the
/// fixed table.
pub fn nps_sido_to_bjd(nps_sido: &str) -> (r: Option<&'static str>)
    ensures
        match (r, spec_nps_sido_to_bjd(nps_sido@)) {
            (Some(a), Some(b)) => a@ == b,
            (None, None) => true,
            _ => false,
        },
{
    proof {
        reveal_strlit("11");
        reveal_strlit("26");
        reveal_strlit("27");
        reveal_strlit("28");
        reveal_strlit("29");
        reveal_strlit("30");
        reveal_strlit("31");
        reveal_strlit("36");
        reveal_strlit("39");
        reveal_strlit("41");
        reveal_strlit("42");
        reveal_strlit("43");
        reveal_strlit("44");
        reveal_strlit("45");
        reveal_strlit("46");
        reveal_strlit("47");
        reveal_strlit("48");
        reveal_strlit("50");
    }
    let n = nps_sido.unicode_len();
    if n != 2 {
        return None;
    }
    let c0 = nps_sido.get_char(0);
    let c1 = nps_sido.get_char(1);
    proof {
        assert(nps_sido@ =~= seq![c0, c1]);
    }
    if c0 == '1' && c1 == '1' {
        proof {
            assert(nps_sido@ =~= "11"@);
        }
        Some("11")
    } else if c0 == '2' && c1 == '6' {
        proof {
            assert(nps_sido@ =~= "26"@);
        }
        Some("26")
    } else if c0 == '2' && c1 == '7' {
        proof {
            assert(nps_sido@ =~= "27"@);
        }
        Some("27")
    } else if c0 == '2' && c1 == '8' {
        proof {
            assert(nps_sido@ =~= "28"@);
        }
        Some("28")
    } else if c0 == '2' && c1 == '9' {
        proof {
            assert(nps_sido@ =~= "29"@);
        }
        Some("29")
    } else if c0 == '3' && c1 == '0' {
        proof {
            assert(nps_sido@ =~= "30"@);
        }
        Some("30")
    } else if c0 == '3' && c1 == '1' {
        proof {
            assert(nps_sido@ =~= "31"@);
        }
        Some("31")
    } else if c0 == '3' && c1 == '6' {
        proof {
            assert(nps_sido@ =~= "36"@);
        }
        Some("36")
    } else if c0 == '4' && c1 == '1' {
        proof {
            assert(nps_sido@ =~= "41"@);
        }
        Some("41")
    } else if c0 == '4' && c1 == '2' {
        proof {
            assert(nps_sido@ =~= "42"@);
        }
        Some("42")
    } else if c0 == '4' && c1 == '3' {
        proof {
            assert(nps_sido@ =~= "43"@);
        }
        Some("43")
    } else if c0 == '4' && c1 == '4' {
        proof {
            assert(nps_sido@ =~= "44"@);
        }
        Some("44")
    } else if c0 == '4' && c1 == '5' {
        proof {
            assert(nps_sido@ =~= "45"@);
        }
        Some("45")
    } else if c0 == '4' && c1 == '6' {
        proof {
            assert(nps_sido@ =~= "46"@);
        }
        Some("46")
    } else if c0 == '4' && c1 == '7' {
        proof {
            assert(nps_sido@ =~= "47"@);
        }
        Some("47")
    } else if c0 == '4' && c1 == '8' {
        proof {
            assert(nps_sido@ =~= "48"@);
        }
        Some("48")
    } else if c0 == '5' && c1 == '0' {
        proof {
            assert(nps_sido@ =~= "50"@);
        }
        Some("39")
    } else if c0 == '3' && c1 == '9' {
        proof {
            assert(nps_sido@ =~= "39"@);
        }
        Some("39")
    } else {
        None
    }
}

/// The province-level (sido) prefix: the first two characters of the
/// normalized region code.
pub fn extract_sido_code(bjd_code: &str) -> (r: String)
    ensures
        r@ == spec_normalize_bjd_code(bjd_code@).subrange(0, 2),
{
    let normalized = normalize_bjd_code(bjd_code);
    proof {
        lemma_normalize_bjd_code_shape(bjd_code@);
    }
    let prefix = normalized.as_str().substring_char(0, 2);
    String::from_str(prefix)
}

} // verus!
