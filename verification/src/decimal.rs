//! Decimal amounts with six places, held as whole millionths.

use crate::numbers::{
    all_digits, digits_of, digits_text, digits_value, fixed_digits, fixed_digits_text, is_digit,
    lemma_digits_round_trip, lemma_fixed_digits_value, number_up_to, only_digits, pow10,
};
use crate::text::{
    chars_of, first_index, index_of, joined, lemma_first_index, strip_end, strip_end_of, trim,
    trimmed, white_space,
};
use crate::validate::{field_error, FieldError};
use vstd::prelude::*;
use vstd::string::*;

verus! {

/// Millionths in one.
pub const DECIMAL_SCALE: i64 = 1_000_000;

/// What a text says as a decimal amount.
pub enum Reading {
    /// Not a decimal with at most six places.
    Malformed,
    /// A decimal whose millionths do not fit in 64 bits.
    OutOfRange,
    /// So many millionths.
    Millionths(int),
}

/// The text before the first point, and the text after it.
pub open spec fn around_point(s: Seq<char>) -> (Seq<char>, Seq<char>) {
    match first_index(s, '.') {
        Some(i) => (s.take(i), s.skip(i + 1)),
        None => (s, Seq::empty()),
    }
}

/// What `text` says as a decimal amount: an optional minus sign, digits, and
/// after a point at most six more digits. White space around it is ignored.
pub open spec fn read_decimal(text: Seq<char>) -> Reading {
    let (whole, fraction) = around_point(trimmed(text));
    let negative = whole.len() > 0 && whole[0] == '-';
    let digits = if negative {
        whole.drop_first()
    } else {
        whole
    };
    if digits.len() == 0 || !all_digits(digits) || fraction.len() > 6 || !all_digits(fraction) {
        Reading::Malformed
    } else {
        let magnitude = digits_value(digits) * DECIMAL_SCALE + digits_value(fraction) * pow10(
            (6 - fraction.len()) as nat,
        );
        let value = if negative {
            -magnitude
        } else {
            magnitude
        };
        if i64::MIN <= value <= i64::MAX {
            Reading::Millionths(value)
        } else {
            Reading::OutOfRange
        }
    }
}

/// `value` millionths as a decimal, without zeros at the end of its places.
pub open spec fn decimal_text(value: int) -> Seq<char> {
    let magnitude = (if value < 0 {
        -value
    } else {
        value
    }) as nat;
    let sign = if value < 0 {
        seq!['-']
    } else {
        Seq::empty()
    };
    let whole = digits_of(magnitude / 1_000_000);
    let fraction = magnitude % 1_000_000;
    if fraction == 0 {
        sign + whole
    } else {
        sign + whole + seq!['.'] + strip_end(fixed_digits(fraction, 6), '0')
    }
}

/// The end of the message for a text that gives no amount.
pub open spec fn decimal_complaint(reading: Reading) -> Seq<char> {
    match reading {
        Reading::Malformed => " must be a decimal with at most six decimal places"@,
        _ => " is outside the supported range"@,
    }
}

/// Reads a decimal amount as millionths.
pub fn parse_decimal(value: &str, label: &str, field: &'static str) -> (r: Result<i64, FieldError>)
    ensures
        r matches Ok(amount) ==> read_decimal(value@) == Reading::Millionths(amount as int),
        r matches Err(error) ==> {
            &&& !(read_decimal(value@) is Millionths)
            &&& error.field@ == field@
            &&& error.message@ == label@ + decimal_complaint(read_decimal(value@))
        },
{
    let value = trim(value);
    let chars = chars_of(value.as_str());
    let total: usize = chars.len();
    let (whole, fraction) = match index_of(chars.as_slice(), '.') {
        Some(i) => {
            proof {
                assert(chars@.subrange(0, i as int) =~= chars@.take(i as int));
                assert(chars@.subrange(i + 1, chars@.len() as int) =~= chars@.skip(i + 1));
            }
            (
                vstd::slice::slice_subrange(chars.as_slice(), 0, i),
                vstd::slice::slice_subrange(chars.as_slice(), i + 1, total),
            )
        },
        None => {
            proof {
                assert(chars@.subrange(0, 0) =~= Seq::<char>::empty());
            }
            (chars.as_slice(), vstd::slice::slice_subrange(chars.as_slice(), 0, 0))
        },
    };
    let negative = whole.len() > 0 && whole[0] == '-';
    let digits = if negative {
        proof {
            assert(whole@.subrange(1, whole@.len() as int) =~= whole@.drop_first());
        }
        vstd::slice::slice_subrange(whole, 1, whole.len())
    } else {
        whole
    };
    if digits.len() == 0 || !only_digits(digits) || fraction.len() > 6 || !only_digits(fraction) {
        return Err(
            field_error(
                field,
                joined(label, " must be a decimal with at most six decimal places"),
            ),
        );
    }
    proof {
        lemma_fraction_bound(fraction@);
    }
    let whole_value: u64 = match number_up_to(digits, 0x7fff_ffff_ffff_ffff) {
        Some(n) => n,
        None => {
            proof {
                assert(digits_value(digits@) * DECIMAL_SCALE >= 0x8000_0000_0000_0000 * 1_000_000);
            }
            return Err(field_error(field, joined(label, " is outside the supported range")));
        },
    };
    let micros: u64 = scaled_fraction(fraction);
    let magnitude: i128 = whole_value as i128 * 1_000_000 + micros as i128;
    let signed: i128 = if negative {
        -magnitude
    } else {
        magnitude
    };
    if signed < -0x8000_0000_0000_0000 || signed > 0x7fff_ffff_ffff_ffff {
        return Err(field_error(field, joined(label, " is outside the supported range")));
    }
    Ok(signed as i64)
}

/// The digits after the point are worth less than one.
proof fn lemma_fraction_bound(fraction: Seq<char>)
    requires
        fraction.len() <= 6,
        all_digits(fraction),
    ensures
        digits_value(fraction) * pow10((6 - fraction.len()) as nat) < 1_000_000,
{
    lemma_value_bound(fraction);
    lemma_powers();
    let n = fraction.len();
    let value = digits_value(fraction);
    if n == 0 {
        assert(value * 1_000_000 < 1_000_000);
    } else if n == 1 {
        assert(value * 100_000 < 1_000_000);
    } else if n == 2 {
        assert(value * 10_000 < 1_000_000);
    } else if n == 3 {
        assert(value * 1_000 < 1_000_000);
    } else if n == 4 {
        assert(value * 100 < 1_000_000);
    } else if n == 5 {
        assert(value * 10 < 1_000_000);
    } else {
        assert(value * 1 < 1_000_000);
    }
}

/// The powers of ten up to a million.
proof fn lemma_powers()
    ensures
        pow10(0) == 1,
        pow10(1) == 10,
        pow10(2) == 100,
        pow10(3) == 1_000,
        pow10(4) == 10_000,
        pow10(5) == 100_000,
        pow10(6) == 1_000_000,
{
    reveal_with_fuel(pow10, 8);
}

/// A run of digits is worth less than ten to the power of its length.
proof fn lemma_value_bound(s: Seq<char>)
    requires
        all_digits(s),
    ensures
        digits_value(s) < pow10(s.len()),
    decreases s.len(),
{
    if s.len() > 0 {
        assert(all_digits(s.drop_last()));
        lemma_value_bound(s.drop_last());
        assert(is_digit(s.last()));
    }
}

/// The millionths that the digits after the point stand for.
fn scaled_fraction(fraction: &[char]) -> (r: u64)
    requires
        fraction@.len() <= 6,
        all_digits(fraction@),
    ensures
        r == digits_value(fraction@) * pow10((6 - fraction@.len()) as nat),
        r < 1_000_000,
{
    proof {
        lemma_value_bound(fraction@);
        lemma_fraction_bound(fraction@);
        lemma_powers();
    }
    let value: u64 = match number_up_to(fraction, 999_999) {
        Some(n) => n,
        None => 0,
    };
    let places: usize = fraction.len();
    let factor: u64 = if places == 0 {
        1_000_000
    } else if places == 1 {
        100_000
    } else if places == 2 {
        10_000
    } else if places == 3 {
        1_000
    } else if places == 4 {
        100
    } else if places == 5 {
        10
    } else {
        1
    };
    proof {
        assert(factor == pow10((6 - fraction@.len()) as nat));
        assert(value * factor == digits_value(fraction@) * pow10((6 - fraction@.len()) as nat));
    }
    value * factor
}

/// Reads an amount greater than zero.
pub fn parse_positive_decimal(value: &str, label: &str, field: &'static str) -> (r: Result<
    i64,
    FieldError,
>)
    ensures
        r matches Ok(amount) ==> amount > 0 && read_decimal(value@) == Reading::Millionths(
            amount as int,
        ),
        r matches Err(error) ==> error.field@ == field@ && match read_decimal(value@) {
            Reading::Millionths(amount) => amount <= 0 && error.message@ == label@
                + " must be greater than zero"@,
            other => error.message@ == label@ + decimal_complaint(other),
        },
{
    match parse_decimal(value, label, field) {
        Ok(parsed) => if parsed <= 0 {
            Err(field_error(field, joined(label, " must be greater than zero")))
        } else {
            Ok(parsed)
        },
        Err(error) => Err(error),
    }
}

/// Reads an amount of at least zero.
pub fn parse_non_negative_decimal(value: &str, label: &str, field: &'static str) -> (r: Result<
    i64,
    FieldError,
>)
    ensures
        r matches Ok(amount) ==> amount >= 0 && read_decimal(value@) == Reading::Millionths(
            amount as int,
        ),
        r matches Err(error) ==> error.field@ == field@ && match read_decimal(value@) {
            Reading::Millionths(amount) => amount < 0 && error.message@ == label@
                + " must not be negative"@,
            other => error.message@ == label@ + decimal_complaint(other),
        },
{
    match parse_decimal(value, label, field) {
        Ok(parsed) => if parsed < 0 {
            Err(field_error(field, joined(label, " must not be negative")))
        } else {
            Ok(parsed)
        },
        Err(error) => Err(error),
    }
}

/// Writes millionths as a decimal.
pub fn format_decimal(value: i64) -> (r: String)
    ensures
        r@ == decimal_text(value as int),
{
    let magnitude: u64 = if value < 0 {
        (-(value as i128)) as u64
    } else {
        value as u64
    };
    let whole: u64 = magnitude / 1_000_000;
    let fraction: u64 = magnitude % 1_000_000;
    let sign = if value < 0 {
        "-"
    } else {
        ""
    };
    proof {
        reveal_strlit("-");
        reveal_strlit("");
        reveal_strlit(".");
        assert("-"@ =~= seq!['-']);
        assert(""@ =~= Seq::<char>::empty());
        assert("."@ =~= seq!['.']);
    }
    let signed = joined(sign, digits_text(whole).as_str());
    if fraction == 0 {
        return signed;
    }
    let places = strip_end_of(fixed_digits_text(fraction, 6).as_str(), '0');
    joined(joined(signed.as_str(), ".").as_str(), places.as_str())
}

/// Zeros at the end of the places change no value.
proof fn lemma_strip_zeros(s: Seq<char>)
    requires
        all_digits(s),
    ensures
        strip_end(s, '0').len() <= s.len(),
        all_digits(strip_end(s, '0')),
        digits_value(strip_end(s, '0')) * pow10((s.len() - strip_end(s, '0').len()) as nat)
            == digits_value(s),
    decreases s.len(),
{
    if s.len() > 0 && s.last() == '0' {
        assert(all_digits(s.drop_last()));
        lemma_strip_zeros(s.drop_last());
        let rest = strip_end(s, '0');
        let k = (s.len() - 1 - rest.len()) as nat;
        assert(pow10(k + 1) == 10 * pow10(k));
        assert(digits_value(rest) * (10 * pow10(k)) == 10 * (digits_value(rest) * pow10(k)))
            by (nonlinear_arith);
    } else {
        assert(pow10(0) == 1);
        assert(digits_value(s) * pow10(0) == digits_value(s)) by (nonlinear_arith)
            requires
                pow10(0) == 1,
        ;
    }
}

/// A text that neither begins nor ends with white space is left as it is.
pub proof fn lemma_nothing_to_trim(s: Seq<char>)
    requires
        s.len() > 0 ==> !white_space(s[0]) && !white_space(s.last()),
    ensures
        trimmed(s) == s,
{
}

/// What a text made of a sign, digits and places says.
proof fn lemma_reading_of_parts(negative: bool, digits: Seq<char>, places: Seq<char>)
    requires
        digits.len() > 0,
        all_digits(digits),
        places.len() <= 6,
        all_digits(places),
    ensures
        ({
            let sign = if negative {
                seq!['-']
            } else {
                Seq::empty()
            };
            let magnitude = digits_value(digits) * DECIMAL_SCALE + digits_value(places) * pow10(
                (6 - places.len()) as nat,
            );
            let value = if negative {
                -magnitude
            } else {
                magnitude
            };
            i64::MIN <= value <= i64::MAX ==> read_decimal(
                if places.len() == 0 {
                    sign + digits
                } else {
                    sign + digits + seq!['.'] + places
                },
            ) == Reading::Millionths(value)
        }),
{
    let sign = if negative {
        seq!['-']
    } else {
        Seq::<char>::empty()
    };
    let whole = sign + digits;
    assert(is_digit(digits[0]));
    assert(is_digit(digits[digits.len() - 1]));
    assert(negative ==> whole[0] == '-');
    assert(!negative ==> whole[0] == digits[0]);
    assert(whole.last() == digits.last());
    assert(negative ==> whole.drop_first() =~= digits);
    assert(!negative ==> whole =~= digits);
    assert forall|k: int| 0 <= k < whole.len() implies #[trigger] whole[k] != '.' by {
        if k >= sign.len() {
            assert(whole[k] == digits[k - sign.len()]);
            assert(is_digit(digits[k - sign.len()]));
        }
    }
    if places.len() == 0 {
        lemma_nothing_to_trim(whole);
        lemma_first_index(whole, '.', whole.len() as int);
        assert(places =~= Seq::<char>::empty());
        assert(around_point(trimmed(whole)) == (whole, places));
    } else {
        let s = whole + seq!['.'] + places;
        assert(s[0] == whole[0]);
        assert(s.last() == places.last());
        assert(is_digit(places[places.len() - 1]));
        lemma_nothing_to_trim(s);
        assert forall|k: int| 0 <= k < whole.len() implies #[trigger] s[k] != '.' by {
            assert(s[k] == whole[k]);
        }
        assert(s[whole.len() as int] == '.');
        lemma_first_index(s, '.', whole.len() as int);
        assert(s.take(whole.len() as int) =~= whole);
        assert(s.skip(whole.len() as int + 1) =~= places);
        assert(around_point(trimmed(s)) == (whole, places));
    }
}

/// Writing an amount and reading it back gives the amount.
pub proof fn law_decimal_round_trip(value: i64)
    ensures
        read_decimal(decimal_text(value as int)) == Reading::Millionths(value as int),
{
    let magnitude = (if value < 0 {
        -value
    } else {
        value as int
    }) as nat;
    let whole = magnitude / 1_000_000;
    let fraction = magnitude % 1_000_000;
    lemma_digits_round_trip(whole);
    lemma_powers();
    if fraction == 0 {
        assert(0 * pow10(6) == 0) by (nonlinear_arith);
        lemma_reading_of_parts(value < 0, digits_of(whole), Seq::empty());
    } else {
        lemma_fixed_digits_value(fraction, 6);
        lemma_strip_zeros(fixed_digits(fraction, 6));
        let places = strip_end(fixed_digits(fraction, 6), '0');
        assert(places.len() > 0) by {
            if places.len() == 0 {
                assert(digits_value(places) == 0);
                assert(0 * pow10(6) == 0) by (nonlinear_arith);
            }
        }
        lemma_reading_of_parts(value < 0, digits_of(whole), places);
    }
}

/// Digits with up to six places behind a point are read as millionths, negative
/// behind a minus sign, as long as they fit.
pub proof fn law_decimals_are_read(negative: bool, digits: Seq<char>, places: Seq<char>)
    requires
        digits.len() > 0,
        forall|i: int| 0 <= i < digits.len() ==> '0' <= #[trigger] digits[i] <= '9',
        0 < places.len() <= 6,
        forall|i: int| 0 <= i < places.len() ==> '0' <= #[trigger] places[i] <= '9',
    ensures
        ({
            let sign = if negative {
                seq!['-']
            } else {
                Seq::empty()
            };
            let magnitude = digits_value(digits) * 1_000_000 + digits_value(places) * (
            if places.len() == 1 {
                100_000int
            } else if places.len() == 2 {
                10_000
            } else if places.len() == 3 {
                1_000
            } else if places.len() == 4 {
                100
            } else if places.len() == 5 {
                10
            } else {
                1
            });
            let value = if negative {
                -magnitude
            } else {
                magnitude
            };
            &&& i64::MIN <= value <= i64::MAX ==> read_decimal(sign + digits + seq!['.'] + places)
                == Reading::Millionths(value)
        }),
{
    lemma_powers();
    assert(all_digits(digits) && all_digits(places));
    lemma_reading_of_parts(negative, digits, places);
}

/// Digits without a point are read as whole amounts.
pub proof fn law_whole_amounts_are_read(negative: bool, digits: Seq<char>)
    requires
        digits.len() > 0,
        forall|i: int| 0 <= i < digits.len() ==> '0' <= #[trigger] digits[i] <= '9',
        digits_value(digits) * 1_000_000 <= i64::MAX,
    ensures
        read_decimal(
            if negative {
                seq!['-'] + digits
            } else {
                digits
            },
        ) == Reading::Millionths(
            if negative {
                -(digits_value(digits) * 1_000_000)
            } else {
                digits_value(digits) * 1_000_000int
            },
        ),
{
    lemma_powers();
    assert(all_digits(digits));
    assert(0 * pow10(6) == 0) by (nonlinear_arith);
    assert(digits_value(Seq::<char>::empty()) == 0);
    lemma_reading_of_parts(negative, digits, Seq::empty());
    assert(Seq::<char>::empty() + digits =~= digits);
}

/// What is read as an amount has at least one digit before the point and at
/// most six behind it, and fits; white space around it makes no difference.
pub proof fn law_amounts_are_well_formed(text: Seq<char>)
    ensures
        trimmed(text).len() == 0 ==> read_decimal(text) is Malformed,
        read_decimal(text) matches Reading::Millionths(value) ==> i64::MIN <= value <= i64::MAX,
        !(read_decimal(text) is Malformed) ==> forall|i: int|
            0 < i < trimmed(text).len() ==> '0' <= #[trigger] trimmed(text)[i] <= '9' || trimmed(
                text,
            )[i] == '.',
        first_index(trimmed(text), '.') matches Some(i) ==> (trimmed(text).len() - i > 7
            ==> read_decimal(text) is Malformed),
        trimmed(trimmed(text)) == trimmed(text) ==> read_decimal(trimmed(text)) == read_decimal(
            text,
        ),
{
    let s = trimmed(text);
    crate::text::law_first_place_of_a_character(s, '.');
    if !(read_decimal(text) is Malformed) {
        let (whole, fraction) = around_point(s);
        let negative = whole.len() > 0 && whole[0] == '-';
        let digits = if negative {
            whole.drop_first()
        } else {
            whole
        };
        assert forall|i: int| 0 < i < s.len() implies '0' <= #[trigger] s[i] <= '9' || s[i]
            == '.' by {
            if i < whole.len() {
                assert(whole[i] == s[i]);
                let k = if negative {
                    i - 1
                } else {
                    i
                };
                assert(digits[k] == s[i]);
                assert(is_digit(digits[k]));
            } else if i > whole.len() {
                assert(fraction[i - whole.len() - 1] == s[i]);
                assert(is_digit(fraction[i - whole.len() - 1]));
            } else {
                assert(s[i] == '.');
            }
        }
    }
}

/// A text that gives no amount is complained about as what it is.
pub proof fn law_complaints_say_what_is_wrong(reading: Reading)
    ensures
        reading is Malformed ==> decimal_complaint(reading)
            == " must be a decimal with at most six decimal places"@,
        reading is OutOfRange ==> decimal_complaint(reading) == " is outside the supported range"@,
{
}

/// A whole amount is written without a point; a negative one begins with a
/// minus sign.
pub proof fn law_whole_amounts_are_written_without_a_point(n: nat)
    ensures
        decimal_text((n * 1_000_000) as int) == digits_of(n),
        n > 0 ==> decimal_text(-(n * 1_000_000)) == seq!['-'] + digits_of(n),
{
    assert((n * 1_000_000) as nat % 1_000_000 == 0);
    assert(Seq::<char>::empty() + digits_of(n) =~= digits_of(n));
}

} // verus!
