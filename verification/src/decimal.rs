use vstd::prelude::*;
use vstd::string::*;

use crate::textparse::{find_char, find_char_in, lemma_find_char};

verus! {

/// A non-negative decimal number, kept exactly as `mantissa / 10^scale`.
///
/// Exchange rates arrive as decimal strings; holding the digits instead of a
/// binary floating-point value keeps them exact and lets two rates be
/// compared by their parts. A rate parsed from `"1.23"` has mantissa `123`
/// and scale `2`; the numeraire's rate `1.0` is mantissa `1`, scale `0`.
#[derive(Clone, Copy, Debug, PartialEq, Eq, Structural)]
pub struct Rate {
    pub mantissa: u64,
    pub scale: u32,
}

impl Rate {
    /// The numeraire's rate: exactly one.
    pub open spec fn spec_one() -> Rate {
        Rate { mantissa: 1u64, scale: 0u32 }
    }

    /// The rate used when a denomination has no known rate: exactly zero.
    pub open spec fn spec_zero() -> Rate {
        Rate { mantissa: 0u64, scale: 0u32 }
    }

    /// Builds the rate one.
    pub fn one() -> (r: Rate)
        ensures
            r == Rate::spec_one(),
    {
        Rate { mantissa: 1, scale: 0 }
    }

    /// Builds the rate zero.
    pub fn zero() -> (r: Rate)
        ensures
            r == Rate::spec_zero(),
    {
        Rate { mantissa: 0, scale: 0 }
    }
}

/// Whether `c` is a decimal digit.
pub open spec fn is_digit(c: char) -> bool {
    48 <= c as u32 <= 57
}

/// Whether every character of `s` is a decimal digit.
pub open spec fn all_digits(s: Seq<char>) -> bool {
    forall|i: int| 0 <= i < s.len() ==> is_digit(#[trigger] s[i])
}

/// The value of `s` read as base-ten digits, most significant first.
pub open spec fn digits_val(s: Seq<char>) -> int
    decreases s.len(),
{
    if s.len() == 0 {
        0
    } else {
        digits_val(s.drop_last()) * 10 + (s.last() as u32) - 48
    }
}

/// A digit string's value is never negative.
pub proof fn lemma_digits_val_nonneg(s: Seq<char>)
    requires
        all_digits(s),
    ensures
        digits_val(s) >= 0,
    decreases s.len(),
{
    if s.len() > 0 {
        assert forall|i: int| 0 <= i < s.drop_last().len() implies is_digit(
            #[trigger] s.drop_last()[i],
        ) by {
            assert(s.drop_last()[i] == s[i]);
        }
        lemma_digits_val_nonneg(s.drop_last());
    }
}

/// Reading more digits never lowers the value: a prefix's value bounds the
/// whole string's value from below.
pub proof fn lemma_digits_val_prefix(s: Seq<char>, i: int)
    requires
        0 <= i <= s.len(),
        all_digits(s),
    ensures
        digits_val(s.subrange(0, i)) <= digits_val(s),
    decreases s.len() - i,
{
    if i == s.len() {
        assert(s.subrange(0, i) =~= s);
    } else {
        let p = s.subrange(0, i);
        let q = s.subrange(0, i + 1);
        assert(q.drop_last() =~= p);
        assert(q.last() == s[i]);
        assert forall|j: int| 0 <= j < p.len() implies is_digit(#[trigger] p[j]) by {
            assert(p[j] == s[j]);
        }
        lemma_digits_val_nonneg(p);
        assert(digits_val(q) == digits_val(p) * 10 + (s[i] as u32) - 48);
        lemma_digits_val_prefix(s, i + 1);
    }
}

/// The unsigned integer denoted by `s`, when `s` is one or more decimal
/// digits whose value fits in a `u64`; nothing otherwise.
pub open spec fn parse_u64_spec(s: Seq<char>) -> Option<u64> {
    if s.len() > 0 && all_digits(s) && digits_val(s) <= u64::MAX {
        Some(digits_val(s) as u64)
    } else {
        None
    }
}

/// Parses a string of decimal digits into a `u64`; rejects an empty string,
/// a non-digit character, and a value over `u64::MAX`.
pub fn parse_u64(s: &str) -> (r: Option<u64>)
    ensures
        r == parse_u64_spec(s@),
{
    let n = s.unicode_len();
    if n == 0 {
        return None;
    }
    let mut acc: u64 = 0;
    let mut i: usize = 0;
    while i < n
        invariant
            0 < n == s@.len(),
            i <= n,
            all_digits(s@.subrange(0, i as int)),
            acc as int == digits_val(s@.subrange(0, i as int)),
        decreases n - i,
    {
        let ch = s.get_char(i);
        let d = ch as u32;
        if d < 48 || d > 57 {
            return None;
        }
        let dv = (d - 48) as u64;
        proof {
            assert(s@.subrange(0, i as int + 1).drop_last() =~= s@.subrange(0, i as int));
            assert(s@.subrange(0, i as int + 1).last() == s@[i as int]);
        }
        if acc > 1_844_674_407_370_955_161u64 || (acc == 1_844_674_407_370_955_161u64 && dv > 5) {
            proof {
                if all_digits(s@) {
                    lemma_digits_val_prefix(s@, i as int + 1);
                }
            }
            return None;
        }
        acc = acc * 10 + dv;
        proof {
            assert forall|j: int| 0 <= j < i as int + 1 implies is_digit(
                #[trigger] s@.subrange(0, i as int + 1)[j],
            ) by {
                assert(s@.subrange(0, i as int + 1)[j] == s@[j]);
                if j < i as int {
                    assert(s@.subrange(0, i as int)[j] == s@[j]);
                }
            }
        }
        i += 1;
    }
    proof {
        assert(s@.subrange(0, n as int) =~= s@);
    }
    Some(acc)
}

/// The rate denoted by `s`: either a plain digit string, or two digit
/// strings joined by a single decimal point, with the combined digits
/// fitting in a `u64`. Nothing otherwise.
pub open spec fn parse_rate_spec(s: Seq<char>) -> Option<Rate> {
    let dot = find_char(s, '.');
    if dot < 0 {
        match parse_u64_spec(s) {
            Some(v) => Some(Rate { mantissa: v, scale: 0u32 }),
            None => None,
        }
    } else {
        let ip = s.subrange(0, dot);
        let fp = s.subrange(dot + 1, s.len() as int);
        if ip.len() > 0 && fp.len() > 0 && fp.len() <= u32::MAX {
            match parse_u64_spec(ip + fp) {
                Some(v) => Some(Rate { mantissa: v, scale: fp.len() as u32 }),
                None => None,
            }
        } else {
            None
        }
    }
}

/// Parses a decimal rate string such as `"1.23"` or `"4"`; rejects an empty
/// integer or fraction part, a second point, a non-digit character, and
/// digits whose combined value is over `u64::MAX`.
pub fn parse_rate(s: &str) -> (r: Option<Rate>)
    ensures
        r == parse_rate_spec(s@),
{
    let n = s.unicode_len();
    match find_char_in(s, '.') {
        None => {
            match parse_u64(s) {
                Some(v) => Some(Rate { mantissa: v, scale: 0 }),
                None => None,
            }
        },
        Some(dot) => {
            proof {
                lemma_find_char(s@, '.');
            }
            let ip = s.substring_char(0, dot);
            let fp = s.substring_char(dot + 1, n);
            let fp_n = fp.unicode_len();
            if dot == 0 || fp_n == 0 {
                return None;
            }
            if fp_n > u32::MAX as usize {
                return None;
            }
            let joined = String::from_str(ip).concat(fp);
            match parse_u64(joined.as_str()) {
                Some(v) => Some(Rate { mantissa: v, scale: fp_n as u32 }),
                None => None,
            }
        },
    }
}

} // verus!
