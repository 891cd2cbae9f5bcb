//! The shape of an external person identifier and its numeric key.
//!
//! A well-shaped identifier is the two-letter prefix `nm` followed by decimal
//! digits; the digits, read as a decimal number, are the record's key. The
//! dataset keeps at most nineteen digits so that every key fits in a `u64`;
//! a longer run of digits is treated as ill-shaped, as is anything else.

use vstd::prelude::*;

verus! {

/// Longest run of digits a well-shaped identifier may carry: any nineteen
/// decimal digits still fit in a `u64`.
pub const MAX_KEY_DIGITS: usize = 19;

/// Whether `c` is a decimal digit.
pub open spec fn is_ascii_digit(c: char) -> bool {
    48 <= c as u32 && c as u32 <= 57
}

/// The value of one decimal digit.
pub open spec fn digit_val(c: char) -> nat {
    (c as u32 - 48) as nat
}

/// Whether every character of `s` is a decimal digit.
pub open spec fn all_digits(s: Seq<char>) -> bool {
    forall|i: int| 0 <= i < s.len() ==> is_ascii_digit(#[trigger] s[i])
}

/// The value of `s` read as a decimal number.
pub open spec fn digits_val(s: Seq<char>) -> nat
    decreases s.len(),
{
    if s.len() == 0 {
        0
    } else {
        digits_val(s.drop_last()) * 10 + digit_val(s.last())
    }
}

/// Ten to the `n`th power.
pub open spec fn pow10(n: nat) -> nat
    decreases n,
{
    if n == 0 {
        1
    } else {
        10 * pow10((n - 1) as nat)
    }
}

/// Whether `s` is a well-shaped person identifier: the prefix `nm` followed
/// by one or more decimal digits, at most [`MAX_KEY_DIGITS`] of them.
pub open spec fn valid_person_id(s: Seq<char>) -> bool {
    &&& 3 <= s.len() <= 2 + MAX_KEY_DIGITS
    &&& s[0] == 'n'
    &&& s[1] == 'm'
    &&& all_digits(s.skip(2))
}

/// The numeric key of a well-shaped identifier: the value of its digits.
pub open spec fn id_key(s: Seq<char>) -> nat {
    digits_val(s.skip(2))
}

/// `pow10` grows with its argument.
pub proof fn lemma_pow10_increases(a: nat, b: nat)
    requires
        a <= b,
    ensures
        pow10(a) <= pow10(b),
    decreases b,
{
    if a < b {
        lemma_pow10_increases(a, (b - 1) as nat);
        assert(pow10(b) == 10 * pow10((b - 1) as nat));
    }
}

/// A run of `n` digits is worth less than ten to the `n`th.
pub proof fn lemma_digits_val_bound(s: Seq<char>)
    requires
        all_digits(s),
    ensures
        digits_val(s) < pow10(s.len()),
    decreases s.len(),
{
    if s.len() > 0 {
        assert(all_digits(s.drop_last())) by {
            assert(forall|i: int|
                0 <= i < s.len() - 1 ==> s.drop_last()[i] == #[trigger] s[i]);
        }
        lemma_digits_val_bound(s.drop_last());
        assert(digit_val(s.last()) <= 9);
    }
}

/// The largest key: nineteen nines, which fits in a `u64`.
pub proof fn lemma_pow10_max_digits()
    ensures
        pow10(MAX_KEY_DIGITS as nat) == 10_000_000_000_000_000_000,
{
    reveal_with_fuel(pow10, 20);
}

/// Reads the numeric key out of an identifier: `Some` of the digits' value
/// exactly on well-shaped identifiers, `None` on everything else.
pub fn person_id_key(s: &str) -> (r: Option<u64>)
    ensures
        match r {
            Option::Some(k) => valid_person_id(s@) && k == id_key(s@),
            Option::None => !valid_person_id(s@),
        },
{
    let n = s.unicode_len();
    if n < 3 || n > 2 + MAX_KEY_DIGITS {
        return Option::None;
    }
    if s.get_char(0) != 'n' || s.get_char(1) != 'm' {
        return Option::None;
    }
    let mut val: u64 = 0;
    let mut i: usize = 2;
    while i < n
        invariant
            2 <= i <= n,
            n == s@.len(),
            3 <= n <= 2 + MAX_KEY_DIGITS,
            all_digits(s@.subrange(2, i as int)),
            val == digits_val(s@.subrange(2, i as int)),
        decreases n - i,
    {
        let c = s.get_char(i);
        let u = c as u32;
        if u < 48 || u > 57 {
            assert(s@.skip(2)[i - 2] == s@[i as int]);
            assert(!all_digits(s@.skip(2)));
            return Option::None;
        }
        proof {
            lemma_digits_val_bound(s@.subrange(2, i as int));
            lemma_pow10_increases((i - 2) as nat, (MAX_KEY_DIGITS - 1) as nat);
            lemma_pow10_max_digits();
            reveal_with_fuel(pow10, 20);
            assert(s@.subrange(2, i + 1).drop_last() =~= s@.subrange(2, i as int));
            assert(s@.subrange(2, i + 1).last() == s@[i as int]);
        }
        val = val * 10 + ((u - 48) as u64);
        assert(all_digits(s@.subrange(2, i + 1))) by {
            assert(forall|j: int|
                0 <= j < i - 2 ==> s@.subrange(2, i + 1)[j] == #[trigger] s@.subrange(
                    2,
                    i as int,
                )[j]);
            assert(s@.subrange(2, i + 1)[i - 2] == s@[i as int]);
        }
        i = i + 1;
    }
    proof {
        assert(s@.subrange(2, n as int) =~= s@.skip(2));
    }
    Option::Some(val)
}

} // verus!
