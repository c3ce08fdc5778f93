//! Signed decimal numerals: the meaning of a numeric literal token, and a
//! verified parser for it. A token is a numeral when it is an optional `+` or
//! `-` sign followed by one or more decimal digits and its value fits in
//! `i32`; anything else is not a numeral.

use vstd::prelude::*;

verus! {

/// The decimal digits.
pub open spec fn is_digit(c: char) -> bool {
    '0' <= c && c <= '9'
}

/// The numeric value of one digit.
pub open spec fn digit_val(c: char) -> int {
    c as int - '0' as int
}

/// Whether every character of `s` is a decimal digit.
pub open spec fn all_digits(s: Seq<char>) -> bool {
    forall|i: int| 0 <= i < s.len() ==> is_digit(#[trigger] s[i])
}

/// The value of an unsigned digit string, most significant digit first.
pub open spec fn digits_val(s: Seq<char>) -> int
    decreases s.len(),
{
    if s.len() == 0 {
        0
    } else {
        digits_val(s.drop_last()) * 10 + digit_val(s.last())
    }
}

/// The value of a signed decimal numeral, or `None` when `s` is not one:
/// empty, sign without digits, a character that is no digit, or a value
/// outside the `i32` range.
pub open spec fn parse_int(s: Seq<char>) -> Option<i32> {
    let digits = if s.len() > 0 && (s[0] == '+' || s[0] == '-') {
        s.skip(1)
    } else {
        s
    };
    let value = if s.len() > 0 && s[0] == '-' {
        -digits_val(digits)
    } else {
        digits_val(digits)
    };
    if digits.len() == 0 || !all_digits(digits) {
        None
    } else if i32::MIN <= value <= i32::MAX {
        Some(value as i32)
    } else {
        None
    }
}

/// Ten to the power `n`.
pub open spec fn pow10(n: nat) -> int
    decreases n,
{
    if n == 0 {
        1
    } else {
        10 * pow10((n - 1) as nat)
    }
}

/// A digit string's value is nonnegative and below ten to its length.
proof fn lemma_digits_val_bounds(s: Seq<char>)
    requires
        all_digits(s),
    ensures
        0 <= digits_val(s) < pow10(s.len()),
    decreases s.len(),
{
    if s.len() > 0 {
        assert(all_digits(s.drop_last()));
        lemma_digits_val_bounds(s.drop_last());
        assert(0 <= digit_val(s.last()) <= 9);
    }
}

/// A digit string with no leading zero is at least ten to one less than its
/// length.
proof fn lemma_digits_val_lower(s: Seq<char>)
    requires
        all_digits(s),
        s.len() >= 1,
        s[0] != '0',
    ensures
        digits_val(s) >= pow10((s.len() - 1) as nat),
    decreases s.len(),
{
    reveal_with_fuel(digits_val, 2);
    if s.len() == 1 {
        assert(digit_val(s[0]) >= 1);
    } else {
        assert(all_digits(s.drop_last()));
        assert(s.drop_last()[0] == s[0]);
        lemma_digits_val_lower(s.drop_last());
        assert(0 <= digit_val(s.last()));
        assert(pow10((s.len() - 1) as nat) == 10 * pow10((s.len() - 2) as nat));
        assert(digits_val(s.drop_last()) * 10 >= pow10((s.len() - 2) as nat) * 10);
    }
}

/// One leading zero does not change a digit string's value.
proof fn lemma_digits_val_skip_zero(s: Seq<char>)
    requires
        s.len() >= 1,
        s[0] == '0',
    ensures
        digits_val(s) == digits_val(s.skip(1)),
    decreases s.len(),
{
    reveal_with_fuel(digits_val, 2);
    if s.len() == 1 {
        assert(s.skip(1) =~= Seq::<char>::empty());
        assert(digit_val('0') == 0);
    } else {
        assert(s.drop_last()[0] == '0');
        lemma_digits_val_skip_zero(s.drop_last());
        assert(s.skip(1).drop_last() =~= s.drop_last().skip(1));
        assert(s.skip(1).last() == s.last());
        assert(s.skip(1).len() == s.len() - 1 >= 1);
        assert(digits_val(s.skip(1)) == digits_val(s.skip(1).drop_last()) * 10 + digit_val(
            s.skip(1).last(),
        ));
    }
}

/// Leading zeros do not change a digit string's value.
proof fn lemma_digits_val_skip_zeros(s: Seq<char>, k: int)
    requires
        0 <= k <= s.len(),
        forall|i: int| 0 <= i < k ==> s[i] == '0',
    ensures
        digits_val(s.skip(k)) == digits_val(s),
    decreases k,
{
    if k > 0 {
        lemma_digits_val_skip_zero(s);
        lemma_digits_val_skip_zeros(s.skip(1), k - 1);
        assert(s.skip(1).skip(k - 1) =~= s.skip(k));
    } else {
        assert(s.skip(0) =~= s);
    }
}

/// `pow10` grows with its argument.
proof fn lemma_pow10_increases(m: nat, n: nat)
    requires
        m <= n,
    ensures
        pow10(m) <= pow10(n),
    decreases n,
{
    if m < n {
        lemma_pow10_increases(m, (n - 1) as nat);
        assert(pow10((n - 1) as nat) >= 1) by {
            lemma_pow10_positive((n - 1) as nat);
        }
    }
}

/// `pow10` is positive.
proof fn lemma_pow10_positive(n: nat)
    ensures
        pow10(n) >= 1,
    decreases n,
{
    if n > 0 {
        lemma_pow10_positive((n - 1) as nat);
    }
}

/// Ten to the tenth, concretely.
proof fn lemma_pow10_ten()
    ensures
        pow10(10) == 10_000_000_000,
{
    reveal_with_fuel(pow10, 11);
}

/// Finds the first position at or after `start` that holds no `'0'`.
fn skip_zeros(s: &str, start: usize) -> (z: usize)
    requires
        start <= s@.len(),
    ensures
        start <= z <= s@.len(),
        forall|i: int| start <= i < z ==> s@[i] == '0',
        z < s@.len() ==> s@[z as int] != '0',
{
    let n = s.unicode_len();
    let mut z = start;
    while z < n
        invariant
            start <= z <= n,
            n == s@.len(),
            start <= s@.len(),
            forall|i: int| start <= i < z ==> s@[i] == '0',
        ensures
            start <= z <= n,
            forall|i: int| start <= i < z ==> s@[i] == '0',
            z == n || s@[z as int] != '0',
        decreases n - z,
    {
        let c = s.get_char(z);
        if c != '0' {
            break;
        }
        z += 1;
    }
    z
}

/// Decides whether `c` is a decimal digit.
fn is_digit_char(c: char) -> (r: bool)
    ensures
        r == is_digit(c),
{
    let u = c as u32;
    48 <= u && u <= 57
}

/// Parses a signed decimal numeral, returning exactly what `parse_int` gives
/// for the same characters.
#[verifier::loop_isolation(false)]
pub fn parse_i32(s: &str) -> (r: Option<i32>)
    ensures
        r == parse_int(s@),
{
    let n = s.unicode_len();
    if n == 0 {
        return None;
    }
    let c0 = s.get_char(0);
    let mut idx: usize = 0;
    if c0 == '+' || c0 == '-' {
        idx = 1;
    }
    let neg = c0 == '-';
    let ghost digits = s@.skip(idx as int);
    proof {
        assert(s@.skip(0) =~= s@);
    }
    if idx == n {
        return None;
    }
    let mut j = idx;
    while j < n
        invariant
            idx <= j <= n,
            n == s@.len(),
            idx <= 1,
            forall|i: int| idx <= i < j ==> is_digit(#[trigger] s@[i]),
        decreases n - j,
    {
        let c = s.get_char(j);
        if !is_digit_char(c) {
            proof {
                assert(!is_digit(digits[j - idx]));
            }
            return None;
        }
        j += 1;
    }
    proof {
        assert(all_digits(digits));
    }
    // Skip leading zeros, so that the digit count bounds the value.
    let z = skip_zeros(s, idx);
    proof {
        lemma_digits_val_skip_zeros(digits, z - idx);
        assert(digits.skip(z - idx) =~= s@.skip(z as int));
    }
    if n - z > 10 {
        // At least eleven significant digits: the value is at least 10^10,
        // which lies outside the i32 range for either sign.
        proof {
            lemma_digits_val_lower(s@.skip(z as int));
            lemma_pow10_increases(10, (n - z - 1) as nat);
            lemma_pow10_ten();
        }
        return None;
    }
    let mut acc: u64 = 0;
    let mut k = z;
    proof {
        assert(s@.skip(z as int).take(0) =~= Seq::<char>::empty());
    }
    while k < n
        invariant
            z <= k <= n,
            n == s@.len(),
            n - z <= 10,
            all_digits(s@.skip(z as int)),
            acc == digits_val(s@.skip(z as int).take(k - z)),
            acc < pow10((k - z) as nat),
        decreases n - k,
    {
        let c = s.get_char(k);
        proof {
            assert(s@.skip(z as int)[k - z] == s@[k as int]);
            assert(is_digit(s@[k as int]));
            let prefix = s@.skip(z as int).take(k + 1 - z);
            assert(prefix.drop_last() =~= s@.skip(z as int).take(k - z));
            assert(prefix.last() == s@[k as int]);
            lemma_pow10_increases((k + 1 - z) as nat, 10);
            lemma_pow10_ten();
        }
        let d = (c as u32) - 48;
        acc = acc * 10 + (d as u64);
        k += 1;
    }
    proof {
        assert(s@.skip(z as int).take(n - z) =~= s@.skip(z as int));
        assert(acc == digits_val(digits));
        lemma_digits_val_bounds(digits);
    }
    if neg {
        if acc > 2_147_483_648 {
            return None;
        }
        if acc == 2_147_483_648 {
            Some(i32::MIN)
        } else {
            Some(-(acc as i32))
        }
    } else {
        if acc > 2_147_483_647 {
            return None;
        }
        Some(acc as i32)
    }
}

} // verus!
