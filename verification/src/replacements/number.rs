//! Signed decimal integers as text: writing them, and reading them back.

use crate::decimal::{push_decimal, spec_decimal};
use vstd::prelude::*;
use vstd::string::{StrSliceExecFns, StringExecFns};

verus! {

/// Whether `c` is one of the digits `0` to `9`.
pub open spec fn is_digit(c: char) -> bool {
    48 <= c as u32 <= 57
}

/// The number that the digit `c` stands for.
pub open spec fn digit_value(c: char) -> nat
    recommends
        is_digit(c),
{
    (c as u32 - 48) as nat
}

/// Whether `s` holds digits only.
pub open spec fn all_digits(s: Seq<char>) -> bool {
    forall|i: int| 0 <= i < s.len() ==> is_digit(#[trigger] s[i])
}

/// The number that the digits of `s` spell, most significant first.
pub open spec fn digits_value(s: Seq<char>) -> nat
    decreases s.len(),
{
    if s.len() == 0 {
        0
    } else {
        digits_value(s.drop_last()) * 10 + digit_value(s.last())
    }
}

/// `n` in decimal, with a minus sign in front when it is negative.
pub open spec fn spec_signed_decimal(n: int) -> Seq<char> {
    if n < 0 {
        seq!['-'] + spec_decimal((-n) as nat)
    } else {
        spec_decimal(n as nat)
    }
}

/// The digits of `s`: what follows its sign, or all of it when it has none.
pub open spec fn unsigned_part(s: Seq<char>) -> Seq<char> {
    if s.len() > 0 && (s[0] == '-' || s[0] == '+') {
        s.skip(1)
    } else {
        s
    }
}

/// The 64-bit signed integer that `s` spells: an optional `+` or `-`, then
/// one or more digits, and nothing else. None when `s` is not of that form
/// or spells a number outside the 64-bit range.
pub open spec fn spec_parse_i64(s: Seq<char>) -> Option<i64> {
    let digits = unsigned_part(s);
    let magnitude = digits_value(digits);
    if digits.len() == 0 || !all_digits(digits) {
        None
    } else if s[0] == '-' {
        if magnitude <= 0x8000_0000_0000_0000 {
            Some((-magnitude) as i64)
        } else {
            None
        }
    } else {
        if magnitude <= 0x7FFF_FFFF_FFFF_FFFF {
            Some(magnitude as i64)
        } else {
            None
        }
    }
}

/// The digits of a prefix spell no more than the digits of the whole.
proof fn lemma_digits_value_of_prefix(s: Seq<char>, k: int)
    requires
        0 <= k <= s.len(),
    ensures
        digits_value(s.take(k)) <= digits_value(s),
    decreases s.len() - k,
{
    if k < s.len() {
        assert(s.take(k + 1).drop_last() =~= s.take(k));
        lemma_digits_value_of_prefix(s, k + 1);
    } else {
        assert(s.take(k) =~= s);
    }
}

/// Reads a 64-bit signed integer from its decimal text.
pub fn parse_i64(s: &str) -> (r: Option<i64>)
    ensures
        r == spec_parse_i64(s@),
{
    let len: usize = s.unicode_len();
    if len == 0 {
        return None;
    }
    let first: u32 = s.get_char(0) as u32;
    let negative: bool = first == 45;
    let start: usize = if first == 45 || first == 43 {
        1
    } else {
        0
    };
    if start == len {
        return None;
    }
    let limit: u64 = if negative {
        0x8000_0000_0000_0000
    } else {
        0x7FFF_FFFF_FFFF_FFFF
    };
    let ghost digits = unsigned_part(s@);
    assert(digits == s@.skip(start as int));
    let mut value: u64 = 0;
    let mut index: usize = start;
    assert(digits.take(0) =~= Seq::<char>::empty());
    while index < len
        invariant
            start <= index <= len,
            len == s@.len(),
            digits == s@.skip(start as int),
            digits == unsigned_part(s@),
            negative <==> s@[0] == '-',
            limit == if negative {
                0x8000_0000_0000_0000u64
            } else {
                0x7FFF_FFFF_FFFF_FFFFu64
            },
            all_digits(digits.take(index - start)),
            value == digits_value(digits.take(index - start)),
            value <= limit,
        decreases len - index,
    {
        let code: u32 = s.get_char(index) as u32;
        let ghost k = index - start;
        assert(digits[k] == s@[index as int]);
        if code < 48 || code > 57 {
            assert(!is_digit(digits[k]));
            return None;
        }
        let digit: u64 = (code - 48) as u64;
        assert(digits.take(k + 1).drop_last() =~= digits.take(k));
        assert(digits.take(k + 1).last() == digits[k]);
        if value > (limit - digit) / 10 {
            proof {
                assert(digits_value(digits.take(k + 1)) == value * 10 + digit);
                lemma_digits_value_of_prefix(digits, k + 1);
            }
            return None;
        }
        value = value * 10 + digit;
        index += 1;
    }
    assert(digits.take(len - start) =~= digits);
    if negative {
        if value == 0x8000_0000_0000_0000 {
            Some(i64::MIN)
        } else {
            Some(-(value as i64))
        }
    } else {
        Some(value as i64)
    }
}

/// Appends `n` in decimal to `out`, with a minus sign when it is negative.
pub fn push_signed_decimal(out: &mut String, n: i64)
    ensures
        final(out)@ == old(out)@ + spec_signed_decimal(n as int),
{
    if n < 0 {
        proof {
            reveal_strlit("-");
        }
        out.append("-");
        let magnitude: u64 = ((-(n + 1)) as u64) + 1;
        push_decimal(out, magnitude);
        assert(out@ =~= old(out)@ + spec_signed_decimal(n as int));
    } else {
        push_decimal(out, n as u64);
    }
}

/// The digits of a decimal text spell the number it was written from.
pub proof fn lemma_decimal_spells_its_number(n: nat)
    ensures
        all_digits(spec_decimal(n)),
        spec_decimal(n).len() >= 1,
        digits_value(spec_decimal(n)) == n,
    decreases n,
{
    if n < 10 {
        assert(spec_decimal(n).drop_last() =~= Seq::<char>::empty());
        assert(digits_value(spec_decimal(n).drop_last()) == 0);
    } else {
        lemma_decimal_spells_its_number(n / 10);
        assert(spec_decimal(n).drop_last() =~= spec_decimal(n / 10));
    }
}

/// Reading the text of a 64-bit signed integer gives the integer back.
pub proof fn lemma_signed_decimal_round_trip(n: i64)
    ensures
        spec_parse_i64(spec_signed_decimal(n as int)) == Some(n),
{
    let s = spec_signed_decimal(n as int);
    if n < 0 {
        let m = (-n) as nat;
        lemma_decimal_spells_its_number(m);
        assert(s.skip(1) =~= spec_decimal(m));
    } else {
        lemma_decimal_spells_its_number(n as nat);
        assert(is_digit(s[0]));
    }
}

} // verus!
