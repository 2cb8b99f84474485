//! Reading field bytes as text and numbers.
use vstd::prelude::*;
use vstd::utf8::{decode_utf8, valid_utf8};

verus! {

/// The fixed-point number with 20 fractional bits that a decimal text denotes,
/// as its raw bits; `None` when the text is not such a number or it overflows.
pub uninterp spec fn decimal_bits(s: Seq<char>) -> Option<i64>;

/// Relies on `simdutf8::basic::from_utf8`: it accepts exactly the valid UTF-8
/// byte sequences and returns their characters.
#[verifier::external_body]
pub(crate) fn utf8_str<'a>(b: &'a [u8]) -> (r: Option<&'a str>)
    ensures
        match r {
            Some(s) => valid_utf8(b@) && s@ == decode_utf8(b@),
            None => !valid_utf8(b@),
        },
{
    simdutf8::basic::from_utf8(b).ok()
}

/// Relies on `FromStr` of `fixed::FixedI64<U20>`: parses a decimal text,
/// rounding to the nearest representable value; the bits depend on the text alone.
#[verifier::external_body]
pub(crate) fn fixed_bits(s: &str) -> (r: Option<i64>)
    ensures
        r == decimal_bits(s@),
{
    match <fixed::FixedI64<fixed::types::extra::U20> as core::str::FromStr>::from_str(s) {
        Ok(v) => Some(v.to_bits()),
        Err(_) => None,
    }
}

/// An ASCII decimal digit.
pub open spec fn is_digit(c: u8) -> bool {
    48 <= c <= 57
}

/// Every byte is a decimal digit.
pub open spec fn all_digits(s: Seq<u8>) -> bool {
    forall|i: int| 0 <= i < s.len() ==> is_digit(#[trigger] s[i])
}

/// The number that a run of decimal digits denotes.
pub open spec fn digits_value(s: Seq<u8>) -> int
    decreases s.len(),
{
    if s.len() == 0 {
        0
    } else {
        digits_value(s.drop_last()) * 10 + (s.last() - 48)
    }
}

/// The integer a text denotes: an optional `+` or `-` followed by at least one digit.
pub open spec fn decimal_int(s: Seq<u8>) -> Option<int> {
    if s.len() > 0 && all_digits(s) {
        Some(digits_value(s))
    } else if s.len() > 1 && s[0] == 45 && all_digits(s.drop_first()) {
        Some(-digits_value(s.drop_first()))
    } else if s.len() > 1 && s[0] == 43 && all_digits(s.drop_first()) {
        Some(digits_value(s.drop_first()))
    } else {
        None
    }
}

/// Smallest magnitude known to be out of range for an `i64`.
pub open spec fn saturated() -> int {
    0x8000_0000_0000_0001
}

/// Parses `b` as a decimal integer (see `decimal_int`) that fits in an `i64`.
pub fn parse_i64_text(b: &[u8]) -> (r: Option<i64>)
    ensures
        match decimal_int(b@) {
            Some(v) => if i64::MIN <= v <= i64::MAX {
                r == Some(v as i64)
            } else {
                r is None
            },
            None => r is None,
        },
{
    let len = b.len();
    if len == 0 {
        return None;
    }
    let neg = b[0] == 45u8;
    let signed = b[0] == 45u8 || b[0] == 43u8;
    let start: usize = if signed {
        1
    } else {
        0
    };
    if start == len {
        return None;
    }
    let ghost digits = b@.subrange(start as int, len as int);
    let mut mag: u128 = 0;
    let mut i: usize = start;
    while i < len
        invariant
            start <= i <= len,
            len == b@.len(),
            start < len,
            start == 1 <==> (b@[0] == 45 || b@[0] == 43),
            start == 0 || start == 1,
            digits == b@.subrange(start as int, len as int),
            all_digits(b@.subrange(start as int, i as int)),
            mag as int == if digits_value(b@.subrange(start as int, i as int)) < saturated() {
                digits_value(b@.subrange(start as int, i as int))
            } else {
                saturated()
            },
        decreases len - i,
    {
        let c = b[i];
        if c < 48u8 || c > 57u8 {
            proof {
                assert(!is_digit(b@[i as int]));
                assert(!all_digits(b@));
                if start == 1 {
                    assert(b@.drop_first()[i - 1] == b@[i as int]);
                    assert(!all_digits(b@.drop_first()));
                } else {
                    assert(b@[0] != 45 && b@[0] != 43);
                }
                assert(decimal_int(b@) is None);
            }
            return None;
        }
        let ghost pre = b@.subrange(start as int, i as int);
        let ghost next = b@.subrange(start as int, i + 1);
        proof {
            assert(next.drop_last() =~= pre);
            assert(next.last() == c);
            assert(digits_value(pre) >= 0) by {
                lemma_digits_nonneg(pre);
            }
        }
        if mag >= 0x8000_0000_0000_0001u128 {
            mag = 0x8000_0000_0000_0001u128;
        } else {
            mag = mag * 10 + (c - 48u8) as u128;
            if mag > 0x8000_0000_0000_0001u128 {
                mag = 0x8000_0000_0000_0001u128;
            }
        }
        i = i + 1;
    }
    proof {
        assert(b@.subrange(start as int, len as int) == digits);
        if start == 1 {
            assert(digits =~= b@.drop_first());
        } else {
            assert(digits =~= b@);
        }
    }
    if neg {
        if mag <= 0x8000_0000_0000_0000u128 {
            let m = mag as i128;
            Some((0i128 - m) as i64)
        } else {
            None
        }
    } else {
        if mag <= 0x7fff_ffff_ffff_ffffu128 {
            Some(mag as i64)
        } else {
            None
        }
    }
}

proof fn lemma_digits_nonneg(s: Seq<u8>)
    requires
        all_digits(s),
    ensures
        digits_value(s) >= 0,
    decreases s.len(),
{
    if s.len() > 0 {
        assert(all_digits(s.drop_last())) by {
            assert forall|i: int| 0 <= i < s.drop_last().len() implies is_digit(
                #[trigger] s.drop_last()[i],
            ) by {
                assert(s.drop_last()[i] == s[i]);
            }
        }
        lemma_digits_nonneg(s.drop_last());
        assert(is_digit(s[s.len() - 1]));
    }
}

} // verus!
