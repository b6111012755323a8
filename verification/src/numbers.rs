//! Decimal digits: reading them and writing them.

use crate::text::{chars_of, joined};
use vstd::prelude::*;
use vstd::string::*;

verus! {

/// Whether `c` is an ASCII digit.
pub open spec fn is_digit(c: char) -> bool {
    '0' <= c <= '9'
}

/// Whether every character of `s` is an ASCII digit.
pub open spec fn all_digits(s: Seq<char>) -> bool {
    forall|i: int| 0 <= i < s.len() ==> is_digit(#[trigger] s[i])
}

/// The number that a digit stands for.
pub open spec fn digit_value(c: char) -> nat {
    (c as u32 - '0' as u32) as nat
}

/// The number that a run of digits stands for, most significant first.
pub open spec fn digits_value(s: Seq<char>) -> nat
    decreases s.len(),
{
    if s.len() == 0 {
        0
    } else {
        digits_value(s.drop_last()) * 10 + digit_value(s.last())
    }
}

/// The digit that stands for `d`.
pub open spec fn digit_char(d: nat) -> char {
    if d == 0 {
        '0'
    } else if d == 1 {
        '1'
    } else if d == 2 {
        '2'
    } else if d == 3 {
        '3'
    } else if d == 4 {
        '4'
    } else if d == 5 {
        '5'
    } else if d == 6 {
        '6'
    } else if d == 7 {
        '7'
    } else if d == 8 {
        '8'
    } else {
        '9'
    }
}

/// `n` in decimal, without leading zeros.
pub open spec fn digits_of(n: nat) -> Seq<char>
    decreases n,
{
    if n < 10 {
        seq![digit_char(n)]
    } else {
        digits_of(n / 10).push(digit_char(n % 10))
    }
}

/// The last `width` digits of `n` in decimal, zeros included.
pub open spec fn fixed_digits(n: nat, width: nat) -> Seq<char>
    decreases width,
{
    if width == 0 {
        Seq::empty()
    } else {
        fixed_digits(n / 10, (width - 1) as nat).push(digit_char(n % 10))
    }
}

/// `n` in decimal, padded with zeros on the left to at least `width` digits.
pub open spec fn padded_digits(n: nat, width: nat) -> Seq<char> {
    if digits_of(n).len() >= width {
        digits_of(n)
    } else {
        fixed_digits(n, width)
    }
}

/// A signed number in decimal.
pub open spec fn signed_digits(n: int) -> Seq<char> {
    if n < 0 {
        seq!['-'] + digits_of((-n) as nat)
    } else {
        digits_of(n as nat)
    }
}

/// The value of a run of digits is at least that of any of its prefixes.
pub proof fn lemma_prefix_value(s: Seq<char>, k: int)
    requires
        0 <= k <= s.len(),
    ensures
        digits_value(s.take(k)) <= digits_value(s),
    decreases s.len() - k,
{
    if k < s.len() {
        lemma_prefix_value(s.drop_last(), k);
        assert(s.drop_last().take(k) =~= s.take(k));
        assert(digits_value(s) >= digits_value(s.drop_last()));
    } else {
        assert(s.take(k) =~= s);
    }
}

/// Writing a number and reading it back gives the number.
pub proof fn lemma_digits_round_trip(n: nat)
    ensures
        digits_of(n).len() > 0,
        all_digits(digits_of(n)),
        digits_value(digits_of(n)) == n,
    decreases n,
{
    reveal_with_fuel(digits_value, 2);
    if n >= 10 {
        lemma_digits_round_trip(n / 10);
        assert(digits_of(n).drop_last() =~= digits_of(n / 10));
        assert(digits_of(n).last() == digit_char(n % 10));
    } else {
        assert(digits_of(n).drop_last() =~= Seq::<char>::empty());
    }
}

/// Zeros on the left change no value.
pub proof fn lemma_fixed_digits_value(n: nat, width: nat)
    requires
        n < pow10(width),
    ensures
        fixed_digits(n, width).len() == width,
        all_digits(fixed_digits(n, width)),
        digits_value(fixed_digits(n, width)) == n,
    decreases width,
{
    if width > 0 {
        assert(pow10(width) == 10 * pow10((width - 1) as nat));
        lemma_fixed_digits_value(n / 10, (width - 1) as nat);
        assert(fixed_digits(n, width).drop_last() =~= fixed_digits(n / 10, (width - 1) as nat));
    }
}

/// Ten to the power `k`.
pub open spec fn pow10(k: nat) -> nat
    decreases k,
{
    if k == 0 {
        1
    } else {
        10 * pow10((k - 1) as nat)
    }
}

/// A number under ten to the power `width` has at most `width` digits.
pub proof fn lemma_digits_len(n: nat, width: nat)
    requires
        width > 0,
        n < pow10(width),
    ensures
        digits_of(n).len() <= width,
    decreases width,
{
    if n >= 10 {
        assert(pow10(width) == 10 * pow10((width - 1) as nat));
        assert(width > 1) by {
            if width == 1 {
                assert(pow10(0) == 1);
            }
        }
        lemma_digits_len(n / 10, (width - 1) as nat);
    }
}

/// Whether `c` is an ASCII digit.
pub fn digit(c: char) -> (r: bool)
    ensures
        r == is_digit(c),
{
    '0' <= c && c <= '9'
}

/// Whether every character of `chars` is an ASCII digit.
pub fn only_digits(chars: &[char]) -> (r: bool)
    ensures
        r == all_digits(chars@),
{
    for i in 0..chars.len()
        invariant
            forall|k: int| 0 <= k < i ==> is_digit(#[trigger] chars@[k]),
    {
        if !digit(chars[i]) {
            return false;
        }
    }
    true
}

/// The number that digits stand for, unless it exceeds `limit`.
pub fn number_up_to(chars: &[char], limit: u64) -> (r: Option<u64>)
    requires
        all_digits(chars@),
    ensures
        r is Some <==> digits_value(chars@) <= limit,
        r matches Some(n) ==> n == digits_value(chars@),
{
    let mut value: u64 = 0;
    for i in 0..chars.len()
        invariant
            all_digits(chars@),
            value == digits_value(chars@.take(i as int)),
            value <= limit,
    {
        let c = chars[i];
        let d: u64 = (c as u32 - '0' as u32) as u64;
        proof {
            assert(is_digit(chars@[i as int]));
            assert(chars@.take(i + 1).drop_last() =~= chars@.take(i as int));
            assert(chars@.take(i + 1).last() == c);
            lemma_prefix_value(chars@, i + 1);
        }
        let next: u128 = value as u128 * 10 + d as u128;
        if next > limit as u128 {
            return None;
        }
        value = next as u64;
    }
    proof {
        assert(chars@.take(chars@.len() as int) =~= chars@);
    }
    Some(value)
}

/// The digit that stands for `d`.
pub fn char_of_digit(d: u64) -> (r: char)
    requires
        d < 10,
    ensures
        r == digit_char(d as nat),
{
    if d == 0 {
        '0'
    } else if d == 1 {
        '1'
    } else if d == 2 {
        '2'
    } else if d == 3 {
        '3'
    } else if d == 4 {
        '4'
    } else if d == 5 {
        '5'
    } else if d == 6 {
        '6'
    } else if d == 7 {
        '7'
    } else if d == 8 {
        '8'
    } else {
        '9'
    }
}

/// `n` in decimal.
pub fn digits_text(n: u64) -> (r: String)
    ensures
        r@ == digits_of(n as nat),
    decreases n,
{
    if n < 10 {
        let mut out = String::new();
        out.push(char_of_digit(n));
        proof {
            assert(Seq::<char>::empty().push(digit_char(n as nat)) =~= seq![digit_char(n as nat)]);
        }
        out
    } else {
        let mut out = digits_text(n / 10);
        out.push(char_of_digit(n % 10));
        out
    }
}

/// The last `width` digits of `n`.
pub fn fixed_digits_text(n: u64, width: usize) -> (r: String)
    ensures
        r@ == fixed_digits(n as nat, width as nat),
    decreases width,
{
    if width == 0 {
        String::new()
    } else {
        let mut out = fixed_digits_text(n / 10, width - 1);
        out.push(char_of_digit(n % 10));
        out
    }
}

/// `n` in decimal, padded with zeros on the left to at least `width` digits.
pub fn padded_digits_text(n: u64, width: usize) -> (r: String)
    ensures
        r@ == padded_digits(n as nat, width as nat),
{
    let plain = digits_text(n);
    if plain.as_str().unicode_len() >= width {
        plain
    } else {
        fixed_digits_text(n, width)
    }
}

/// A signed number in decimal.
pub fn signed_text(n: i64) -> (r: String)
    ensures
        r@ == signed_digits(n as int),
{
    if n < 0 {
        let magnitude: u64 = (-(n as i128)) as u64;
        proof {
            reveal_strlit("-");
            assert("-"@ =~= seq!['-']);
        }
        joined("-", digits_text(magnitude).as_str())
    } else {
        digits_text(n as u64)
    }
}

/// The number that a text spells as `std` integers of the given range do: an
/// optional sign, then at least one digit; `-` only where `min` is negative.
pub open spec fn spelled_integer(s: Seq<char>, min: int, max: int) -> Option<int> {
    let negative = s.len() > 0 && s[0] == '-' && min < 0;
    let signed = s.len() > 0 && (s[0] == '+' || negative);
    let digits = if signed {
        s.drop_first()
    } else {
        s
    };
    let value = if negative {
        -digits_value(digits)
    } else {
        digits_value(digits) as int
    };
    if digits.len() > 0 && all_digits(digits) && min <= value <= max {
        Some(value)
    } else {
        None
    }
}

/// Reads an unsigned integer of at most `max`.
pub fn parse_unsigned(s: &str, max: u64) -> (r: Option<u64>)
    ensures
        r is Some <==> spelled_integer(s@, 0, max as int) is Some,
        r matches Some(n) ==> spelled_integer(s@, 0, max as int) == Some(n as int),
{
    let chars = chars_of(s);
    if chars.len() == 0 {
        return None;
    }
    let digits = if chars[0] == '+' {
        proof {
            assert(chars@.subrange(1, chars@.len() as int) =~= s@.drop_first());
        }
        vstd::slice::slice_subrange(chars.as_slice(), 1, chars.len())
    } else {
        chars.as_slice()
    };
    if digits.len() == 0 || !only_digits(digits) {
        return None;
    }
    number_up_to(digits, max)
}

/// Reads a signed 64-bit integer.
pub fn parse_signed(s: &str) -> (r: Option<i64>)
    ensures
        r is Some <==> spelled_integer(s@, i64::MIN as int, i64::MAX as int) is Some,
        r matches Some(n) ==> spelled_integer(s@, i64::MIN as int, i64::MAX as int) == Some(
            n as int,
        ),
{
    let chars = chars_of(s);
    if chars.len() == 0 {
        return None;
    }
    let negative = chars[0] == '-';
    let digits = if negative || chars[0] == '+' {
        proof {
            assert(chars@.subrange(1, chars@.len() as int) =~= s@.drop_first());
        }
        vstd::slice::slice_subrange(chars.as_slice(), 1, chars.len())
    } else {
        chars.as_slice()
    };
    if digits.len() == 0 || !only_digits(digits) {
        return None;
    }
    if negative {
        match number_up_to(digits, 0x8000_0000_0000_0000) {
            Some(n) => Some((-(n as i128)) as i64),
            None => None,
        }
    } else {
        match number_up_to(digits, 0x7fff_ffff_ffff_ffff) {
            Some(n) => Some(n as i64),
            None => None,
        }
    }
}

/// A run of digits stands for ten times what it stands for without its last
/// digit, and that digit.
pub proof fn law_digits_count_in_tens(s: Seq<char>, c: char)
    requires
        '0' <= c <= '9',
    ensures
        digits_value(Seq::<char>::empty()) == 0,
        digits_value(s.push(c)) == 10 * digits_value(s) + (c as int - '0' as int),
        all_digits(s.push(c)) <==> all_digits(s),
{
    assert(s.push(c).drop_last() =~= s);
    if all_digits(s.push(c)) {
        assert forall|i: int| 0 <= i < s.len() implies is_digit(#[trigger] s[i]) by {
            assert(s.push(c)[i] == s[i]);
        }
    }
}

/// A number is written in digits that stand for it, without a zero before them;
/// a negative one behind a minus sign.
pub proof fn law_numbers_are_written_in_digits(n: nat)
    ensures
        digits_value(digits_of(n)) == n,
        forall|i: int| 0 <= i < digits_of(n).len() ==> '0' <= #[trigger] digits_of(n)[i] <= '9',
        n > 0 ==> digits_of(n)[0] != '0',
        signed_digits(n as int) == digits_of(n),
        n > 0 ==> signed_digits(-n) == seq!['-'] + digits_of(n),
    decreases n,
{
    lemma_digits_round_trip(n);
    assert forall|i: int| 0 <= i < digits_of(n).len() implies '0' <= #[trigger] digits_of(n)[i]
        <= '9' by {
        assert(is_digit(digits_of(n)[i]));
    }
    if n >= 10 {
        law_numbers_are_written_in_digits(n / 10);
        assert(digits_of(n)[0] == digits_of(n / 10)[0]);
    }
}

/// Padding fills a number with zeros on the left up to a width and changes no
/// value.
pub proof fn law_padding_fills_with_zeros(n: nat, width: nat)
    requires
        n < pow10(width),
    ensures
        fixed_digits(n, width).len() == width,
        digits_value(fixed_digits(n, width)) == n,
        padded_digits(n, width).len() >= width,
        digits_value(padded_digits(n, width)) == n,
{
    lemma_fixed_digits_value(n, width);
    lemma_digits_round_trip(n);
}

/// A text spells the number of its digits, negative behind a minus sign where
/// that is allowed, as long as it is in range; it spells none without digits or
/// with anything else.
pub proof fn law_integers_are_spelled(digits: Seq<char>, min: int, max: int)
    requires
        digits.len() > 0,
        forall|i: int| 0 <= i < digits.len() ==> '0' <= #[trigger] digits[i] <= '9',
    ensures
        min <= digits_value(digits) <= max ==> spelled_integer(digits, min, max) == Some(
            digits_value(digits) as int,
        ),
        digits_value(digits) < min || digits_value(digits) > max ==> spelled_integer(
            digits,
            min,
            max,
        ) is None,
        min <= digits_value(digits) <= max ==> spelled_integer(seq!['+'] + digits, min, max)
            == Some(digits_value(digits) as int),
        min < 0 && min <= -digits_value(digits) <= max ==> spelled_integer(
            seq!['-'] + digits,
            min,
            max,
        ) == Some(-digits_value(digits)),
        min >= 0 ==> spelled_integer(seq!['-'] + digits, min, max) is None,
        spelled_integer(Seq::empty(), min, max) is None,
{
    assert('0' <= digits[0] <= '9');
    assert(all_digits(digits));
    assert((seq!['+'] + digits).drop_first() =~= digits);
    assert((seq!['-'] + digits).drop_first() =~= digits);
    assert(!is_digit((seq!['-'] + digits)[0]));
}

/// A text that spells a number holds nothing but digits behind its first
/// character.
pub proof fn law_spelled_integers_are_digits(s: Seq<char>, min: int, max: int, i: int)
    requires
        spelled_integer(s, min, max) is Some,
        0 < i < s.len(),
    ensures
        '0' <= s[i] <= '9',
        min <= spelled_integer(s, min, max)->0 <= max,
{
    let negative = s.len() > 0 && s[0] == '-' && min < 0;
    let signed = s.len() > 0 && (s[0] == '+' || negative);
    if signed {
        assert(is_digit(s.drop_first()[i - 1]));
    } else {
        assert(is_digit(s[i]));
    }
}

} // verus!
