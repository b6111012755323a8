//! Civil dates, UTC date keys and the epoch clock.

use crate::numbers::{
    all_digits, digits_of, digits_value, is_digit, lemma_digits_len, lemma_digits_round_trip,
    lemma_fixed_digits_value, padded_digits, padded_digits_text, parse_signed, pow10,
    spelled_integer,
};
use crate::text::{joined, trim, trimmed};
use vstd::prelude::*;
use vstd::string::*;

verus! {

/// Milliseconds per UTC day.
pub const MILLIS_PER_DAY: i64 = 86_400_000;

/// Environment variable that pins the process-wide epoch, in seconds.
pub const TEST_CLOCK_EPOCH_VARIABLE: &'static str = "LOCAL_API_RELAY_TEST_CLOCK_EPOCH";

/// Environment variable that names a file holding the recovery clock.
pub const RECOVERY_CLOCK_FILE_VARIABLE: &'static str = "LOCAL_API_RELAY_TEST_RECOVERY_CLOCK_FILE";

/// Whether `year` is a leap year of the Gregorian calendar.
pub open spec fn leap(year: int) -> bool {
    year % 4 == 0 && (year % 100 != 0 || year % 400 == 0)
}

/// Days from 1970-01-01 to the first day of `year`.
pub open spec fn days_to_year(year: int) -> int {
    365 * year + (year + 3) / 4 - (year + 99) / 100 + (year + 399) / 400 - 719_528
}

/// Days in a month.
pub open spec fn days_in_month(year: int, month: int) -> int {
    if month == 2 {
        if leap(year) {
            29
        } else {
            28
        }
    } else if month == 4 || month == 6 || month == 9 || month == 11 {
        30
    } else {
        31
    }
}

/// Days from the first day of `year` to the first day of `month`.
pub open spec fn days_before_month(year: int, month: int) -> int
    decreases month,
{
    if month <= 1 {
        0
    } else {
        days_before_month(year, month - 1) + days_in_month(year, month - 1)
    }
}

/// Whether a date exists.
pub open spec fn valid_date(year: int, month: int, day: int) -> bool {
    1 <= month <= 12 && 1 <= day <= days_in_month(year, month)
}

/// Days from 1970-01-01 to a date.
pub open spec fn day_number(year: int, month: int, day: int) -> int {
    days_to_year(year) + days_before_month(year, month) + day - 1
}

/// The year that began in the March at or before a date.
pub open spec fn march_year(year: int, month: int) -> int {
    if month <= 2 {
        year - 1
    } else {
        year
    }
}

/// Months since the last March; months past December run on.
pub open spec fn march_month(month: int) -> int {
    if month > 2 {
        month - 3
    } else {
        month + 9
    }
}

/// Days from the March that began a 400-year era to a date.
pub open spec fn day_of_era(year: int, month: int, day: int) -> int {
    let y = march_year(year, month) % 400;
    365 * y + y / 4 - y / 100 + (153 * march_month(month) + 2) / 5 + day - 1
}

/// Days from 1970-01-01 to a date, for any month and day number.
pub open spec fn running_day_number(year: int, month: int, day: int) -> int {
    march_year(year, month) / 400 * 146_097 + day_of_era(year, month, day) - 719_468
}

/// Whether the arithmetic for a date stays within 64 bits.
pub open spec fn date_fits(year: int, month: int, day: int) -> bool {
    let era_days = march_year(year, month) / 400 * 146_097;
    &&& march_year(year, month) >= i64::MIN
    &&& era_days >= i64::MIN
    &&& era_days + day_of_era(year, month, day) <= i64::MAX
    &&& era_days + day_of_era(year, month, day) - 719_468 >= i64::MIN
}

/// A year has 365 days, a leap year one more.
#[verifier::spinoff_prover]
pub proof fn law_year_length(year: int)
    ensures
        days_to_year(year + 1) - days_to_year(year) == if leap(year) {
            366int
        } else {
            365
        },
        days_to_year(1970) == 0,
{
    assert((year + 4) / 4 - (year + 3) / 4 == if year % 4 == 0 {
        1int
    } else {
        0
    });
    assert((year + 100) / 100 - (year + 99) / 100 == if year % 100 == 0 {
        1int
    } else {
        0
    });
    assert((year + 400) / 400 - (year + 399) / 400 == if year % 400 == 0 {
        1int
    } else {
        0
    });
    assert(year % 100 == 0 ==> year % 4 == 0);
    assert(year % 400 == 0 ==> year % 100 == 0);
}

/// Every month's first day, counted from the year's.
proof fn lemma_months(year: int)
    ensures
        ({
            let extra = if leap(year) {
                1int
            } else {
                0
            };
            &&& days_before_month(year, 1) == 0
            &&& days_before_month(year, 2) == 31
            &&& days_before_month(year, 3) == 59 + extra
            &&& days_before_month(year, 4) == 90 + extra
            &&& days_before_month(year, 5) == 120 + extra
            &&& days_before_month(year, 6) == 151 + extra
            &&& days_before_month(year, 7) == 181 + extra
            &&& days_before_month(year, 8) == 212 + extra
            &&& days_before_month(year, 9) == 243 + extra
            &&& days_before_month(year, 10) == 273 + extra
            &&& days_before_month(year, 11) == 304 + extra
            &&& days_before_month(year, 12) == 334 + extra
        }),
{
    reveal_with_fuel(days_before_month, 13);
}

/// Days of whole years, counted from March of year 0.
pub open spec fn march_days(year: int) -> int {
    365 * year + year / 4 - year / 100 + year / 400
}

/// Whole years fall into eras of 400.
proof fn lemma_eras(y: int)
    ensures
        march_days(y) == y / 400 * 146_097 + 365 * (y % 400) + (y % 400) / 4 - (y % 400) / 100,
{
    let e = y / 400;
    let r = y % 400;
    assert(y == 400 * e + r);
    assert(y / 4 == 100 * e + r / 4);
    assert(y / 100 == 4 * e + r / 100);
}

/// A year's first day, counted from March of the same year.
proof fn lemma_january_of_same_march(y: int)
    ensures
        days_to_year(y) == march_days(y) - 719_527 - if leap(y) {
            1int
        } else {
            0
        },
{
    lemma_ceil(y, 4);
    lemma_ceil(y, 100);
    lemma_ceil(y, 400);
    let e = y / 400;
    let r = y % 400;
    assert(y % 4 == r % 4 && y % 100 == r % 100);
}

/// Rounding a quotient up.
proof fn lemma_ceil(y: int, d: int)
    requires
        d == 4 || d == 100 || d == 400,
    ensures
        (y + d - 1) / d == y / d + if y % d == 0 {
            0int
        } else {
            1
        },
{
    if d == 4 {
        assert((y + 3) / 4 == y / 4 + if y % 4 == 0 {
            0int
        } else {
            1
        });
    } else if d == 100 {
        assert((y + 99) / 100 == y / 100 + if y % 100 == 0 {
            0int
        } else {
            1
        });
    } else {
        assert((y + 399) / 400 == y / 400 + if y % 400 == 0 {
            0int
        } else {
            1
        });
    }
}

/// A year's first day, counted from March of the year before.
proof fn lemma_january_of_last_march(y: int)
    ensures
        days_to_year(y + 1) == march_days(y) - 719_162,
{
    assert((y + 1 + 3) / 4 == y / 4 + 1);
    assert((y + 1 + 99) / 100 == y / 100 + 1);
    assert((y + 1 + 399) / 400 == y / 400 + 1);
}

/// Counting from March agrees with counting from January.
proof fn lemma_running_day_number(year: int, month: int, day: int)
    requires
        1 <= month <= 12,
    ensures
        running_day_number(year, month, day) == day_number(year, month, day),
{
    lemma_months(year);
    let y = march_year(year, month);
    lemma_eras(y);
    assert(running_day_number(year, month, day) == march_days(y) + (153 * march_month(month) + 2)
        / 5 + day - 1 - 719_468);
    if month <= 2 {
        lemma_january_of_last_march(y);
    } else {
        lemma_january_of_same_march(y);
    }
}

/// A day of an era falls into a year of the era and a day of that year.
proof fn lemma_split_era(day_of_era: int, century: int, cycle: int, year: int)
    requires
        0 <= day_of_era < 146_097,
        century == if day_of_era / 36_524 < 3 {
            day_of_era / 36_524
        } else {
            3
        },
        cycle == (day_of_era - century * 36_524) / 1_461,
        year == if (day_of_era - century * 36_524 - cycle * 1_461) / 365 < 3 {
            (day_of_era - century * 36_524 - cycle * 1_461) / 365
        } else {
            3
        },
    ensures
        ({
            let day_of_year = day_of_era - century * 36_524 - cycle * 1_461 - year * 365;
            let y = century * 100 + cycle * 4 + year;
            &&& 0 <= century <= 3 && 0 <= cycle <= 24 && 0 <= year <= 3
            &&& 0 <= day_of_year <= 365
            &&& y / 4 == century * 25 + cycle
            &&& y / 100 == century
            &&& day_of_year == 365 ==> (y + 1) % 4 == 0 && ((y + 1) % 100 != 0 || (y + 1) % 400
                == 0)
        }),
{
}

/// The month and the day of the month of a day counted from the first of March.
proof fn lemma_month_of_day(month_prime: int, day_of_year: int)
    requires
        0 <= day_of_year <= 365,
        month_prime == (5 * day_of_year + 2) / 153,
    ensures
        ({
            let day = day_of_year - (153 * month_prime + 2) / 5 + 1;
            &&& 0 <= month_prime <= 11
            &&& 1 <= day <= 31
            &&& (month_prime == 1 || month_prime == 3 || month_prime == 6 || month_prime == 8)
                ==> day <= 30
            &&& month_prime == 11 ==> day <= 29
            &&& month_prime == 11 && day == 29 ==> day_of_year == 365
        }),
{
}

/// The date found for a day is the right one.
proof fn lemma_date_of_day(era: int, year_of_era: int, day_of_year: int)
    requires
        0 <= year_of_era < 400,
        0 <= day_of_year <= 365,
        day_of_year == 365 ==> leap(year_of_era + 1),
    ensures
        ({
            let month_prime = (5 * day_of_year + 2) / 153;
            let day = day_of_year - (153 * month_prime + 2) / 5 + 1;
            let month = if month_prime < 10 {
                month_prime + 3
            } else {
                month_prime - 9
            };
            let march = era * 400 + year_of_era;
            let year = if month <= 2 {
                march + 1
            } else {
                march
            };
            &&& valid_date(year, month, day)
            &&& day_number(year, month, day) == era * 146_097 + 365 * year_of_era + year_of_era / 4
                - year_of_era / 100 + day_of_year - 719_468
        }),
{
    let month_prime = (5 * day_of_year + 2) / 153;
    let day = day_of_year - (153 * month_prime + 2) / 5 + 1;
    let month = if month_prime < 10 {
        month_prime + 3
    } else {
        month_prime - 9
    };
    let march = era * 400 + year_of_era;
    let year = if month <= 2 {
        march + 1
    } else {
        march
    };
    lemma_month_of_day(month_prime, day_of_year);
    assert(valid_date(year, month, day)) by {
        lemma_leap_repeats(era, year_of_era + 1);
    }
    assert(day_number(year, month, day) == era * 146_097 + 365 * year_of_era + year_of_era / 4
        - year_of_era / 100 + day_of_year - 719_468) by {
        lemma_running_day_number(year, month, day);
        assert(march_year(year, month) == march);
        assert(march_month(month) == month_prime);
        assert(march / 400 == era && march % 400 == year_of_era);
    }
}

/// The leap years repeat every 400 years.
proof fn lemma_leap_repeats(era: int, y: int)
    ensures
        leap(era * 400 + y) == leap(y),
{
    assert((era * 400 + y) % 4 == y % 4);
    assert((era * 400 + y) % 100 == y % 100);
    assert((era * 400 + y) % 400 == y % 400);
}

/// Floor division by a positive number.
fn floor_div(x: i64, d: i64) -> (q: i64)
    requires
        d > 0,
    ensures
        q == x as int / d as int,
{
    if x >= 0 {
        x / d
    } else {
        let up: i64 = -(x + 1);
        let q: i64 = up / d;
        proof {
            let m = up as int;
            let n = d as int;
            assert(m == n * (m / n) + m % n) by (nonlinear_arith)
                requires
                    n > 0,
            ;
            assert(x as int == n * (-(m / n) - 1) + (n - 1 - m % n)) by (nonlinear_arith)
                requires
                    m == n * (m / n) + m % n,
                    x as int == -m - 1,
            ;
            vstd::arithmetic::div_mod::lemma_fundamental_div_mod_converse(
                x as int,
                n,
                -(m / n) - 1,
                n - 1 - m % n,
            );
            assert(m / n <= m) by (nonlinear_arith)
                requires
                    m >= 0,
                    n > 0,
            ;
        }
        -q - 1
    }
}

/// The date that lies `days_since_epoch` days after 1970-01-01.
pub fn civil_from_days(days_since_epoch: i64) -> (r: (i64, u32, u32))
    requires
        days_since_epoch + 719_468 <= i64::MAX,
    ensures
        valid_date(r.0 as int, r.1 as int, r.2 as int),
        day_number(r.0 as int, r.1 as int, r.2 as int) == days_since_epoch,
{
    let z: i64 = days_since_epoch + 719_468;
    let era: i64 = floor_div(z, 146_097);
    let day_of_era: i64 = (z as i128 - era as i128 * 146_097) as i64;
    proof {
        assert(0 <= day_of_era < 146_097);
        let century = if day_of_era / 36_524 < 3 {
            day_of_era as int / 36_524
        } else {
            3
        };
        let cycle = (day_of_era - century * 36_524) / 1_461;
        let year = if (day_of_era - century * 36_524 - cycle * 1_461) / 365 < 3 {
            (day_of_era - century * 36_524 - cycle * 1_461) / 365
        } else {
            3
        };
        lemma_split_era(day_of_era as int, century, cycle, year);
    }
    let century: i64 = if day_of_era / 36_524 < 3 {
        day_of_era / 36_524
    } else {
        3
    };
    let day_of_century: i64 = day_of_era - century * 36_524;
    let cycle: i64 = day_of_century / 1_461;
    let day_of_cycle: i64 = day_of_century - cycle * 1_461;
    let year_of_cycle: i64 = if day_of_cycle / 365 < 3 {
        day_of_cycle / 365
    } else {
        3
    };
    let day_of_year: i64 = day_of_cycle - year_of_cycle * 365;
    let year_of_era: i64 = century * 100 + cycle * 4 + year_of_cycle;
    let month_prime: i64 = (5 * day_of_year + 2) / 153;
    let day: i64 = day_of_year - (153 * month_prime + 2) / 5 + 1;
    let month: i64 = if month_prime < 10 {
        month_prime + 3
    } else {
        month_prime - 9
    };
    let march: i64 = year_of_era + era * 400;
    let year: i64 = if month <= 2 {
        march + 1
    } else {
        march
    };
    proof {
        lemma_date_of_day(era as int, year_of_era as int, day_of_year as int);
    }
    (year, month as u32, day as u32)
}

/// Days from 1970-01-01 to a date.
pub fn days_from_civil(date: (i64, u32, u32)) -> (r: i64)
    requires
        date_fits(date.0 as int, date.1 as int, date.2 as int),
    ensures
        r == running_day_number(date.0 as int, date.1 as int, date.2 as int),
        1 <= date.1 <= 12 ==> r == day_number(date.0 as int, date.1 as int, date.2 as int),
{
    let (given_year, month, day) = date;
    let year: i64 = if month <= 2 {
        given_year - 1
    } else {
        given_year
    };
    let era: i64 = floor_div(year, 400);
    let year_of_era: i64 = (year as i128 - era as i128 * 400) as i64;
    let month_prime: i64 = if month > 2 {
        month as i64 - 3
    } else {
        month as i64 + 9
    };
    let day_of_year: i64 = (153 * month_prime + 2) / 5 + day as i64 - 1;
    let day_of_era: i64 = year_of_era * 365 + year_of_era / 4 - year_of_era / 100 + day_of_year;
    proof {
        if 1 <= month <= 12 {
            lemma_running_day_number(given_year as int, month as int, day as int);
        }
    }
    era * 146_097 + day_of_era - 719_468
}

/// Each day number belongs to one date.
pub proof fn law_dates_are_distinct(y1: int, m1: int, d1: int, y2: int, m2: int, d2: int)
    requires
        valid_date(y1, m1, d1),
        valid_date(y2, m2, d2),
        day_number(y1, m1, d1) == day_number(y2, m2, d2),
    ensures
        y1 == y2 && m1 == m2 && d1 == d2,
{
    lemma_within_year(y1, m1, d1);
    lemma_within_year(y2, m2, d2);
    if y1 < y2 {
        lemma_years_apart(y1, y2);
    } else if y2 < y1 {
        lemma_years_apart(y2, y1);
    }
    lemma_months(y1);
}

/// A date lies within its year.
proof fn lemma_within_year(year: int, month: int, day: int)
    requires
        valid_date(year, month, day),
    ensures
        days_to_year(year) <= day_number(year, month, day) < days_to_year(year + 1),
{
    lemma_months(year);
    law_year_length(year);
}

/// A later year begins later.
proof fn lemma_years_apart(a: int, b: int)
    requires
        a < b,
    ensures
        days_to_year(a + 1) <= days_to_year(b),
    decreases b - a,
{
    if a + 1 < b {
        lemma_years_apart(a + 1, b);
        law_year_length(a + 1);
    }
}

/// A year as four digits; a minus sign takes the place of one.
pub open spec fn year_text(year: int) -> Seq<char> {
    if year < 0 {
        seq!['-'] + padded_digits((-year) as nat, 3)
    } else {
        padded_digits(year as nat, 4)
    }
}

/// A date as `YYYY-MM-DD`.
pub open spec fn date_text(year: int, month: int, day: int) -> Seq<char> {
    year_text(year) + seq!['-'] + padded_digits(month as nat, 2) + seq!['-'] + padded_digits(
        day as nat,
        2,
    )
}

/// The UTC day of an epoch-millisecond instant, in days since 1970-01-01.
pub open spec fn day_of_instant(epoch_ms: int) -> int {
    epoch_ms / 86_400_000
}

/// Whether `text` is the date of day `days`.
pub open spec fn is_date_key(text: Seq<char>, days: int) -> bool {
    exists|year: int, month: int, day: int|
        valid_date(year, month, day) && day_number(year, month, day) == days && text
            == #[trigger] date_text(year, month, day)
}

/// The UTC date `YYYY-MM-DD` of an epoch-millisecond instant.
pub fn date_key(epoch_ms: i64) -> (r: String)
    ensures
        is_date_key(r@, day_of_instant(epoch_ms as int)),
{
    let days: i64 = day_of(epoch_ms);
    let (year, month, day) = civil_from_days(days);
    proof {
        reveal_strlit("-");
        assert("-"@ =~= seq!['-']);
        lemma_within_year(year as int, month as int, day as int);
    }
    let first = if year < 0 {
        let magnitude: u64 = (-(year as i128)) as u64;
        joined("-", padded_digits_text(magnitude, 3).as_str())
    } else {
        padded_digits_text(year as u64, 4)
    };
    let second = padded_digits_text(month as u64, 2);
    let third = padded_digits_text(day as u64, 2);
    let left = joined(joined(first.as_str(), "-").as_str(), second.as_str());
    let out = joined(joined(left.as_str(), "-").as_str(), third.as_str());
    proof {
        assert(out@ =~= date_text(year as int, month as int, day as int));
    }
    out
}

/// The UTC day of an instant.
pub fn day_of(epoch_ms: i64) -> (r: i64)
    ensures
        r == day_of_instant(epoch_ms as int),
        -106_751_991_168 <= r <= 106_751_991_167,
{
    floor_div(epoch_ms, MILLIS_PER_DAY)
}

/// Padding keeps a number readable.
proof fn lemma_padded_value(n: nat, width: nat)
    ensures
        digits_value(padded_digits(n, width)) == n,
        all_digits(padded_digits(n, width)),
        padded_digits(n, width).len() >= width,
        width > 0 && n < pow10(width) ==> padded_digits(n, width).len() == width,
        padded_digits(n, width).len() > 0,
{
    lemma_digits_round_trip(n);
    if digits_of(n).len() < width {
        lemma_digits_bound(n);
        lemma_pow10_grows(digits_of(n).len(), width);
        lemma_fixed_digits_value(n, width);
    } else if width > 0 && n < pow10(width) {
        lemma_digits_len(n, width);
    }
}

/// A number is under ten to the power of its number of digits.
pub proof fn lemma_digits_bound(n: nat)
    ensures
        n < pow10(digits_of(n).len()),
    decreases n,
{
    reveal_with_fuel(pow10, 2);
    if n >= 10 {
        lemma_digits_bound(n / 10);
        let k = digits_of(n / 10).len();
        assert(pow10(k + 1) == 10 * pow10(k));
    }
}

/// Powers of ten grow.
pub proof fn lemma_pow10_grows(a: nat, b: nat)
    requires
        a <= b,
    ensures
        pow10(a) <= pow10(b),
    decreases b,
{
    if a < b {
        lemma_pow10_grows(a, (b - 1) as nat);
    }
}

/// Dates are told apart by their text.
proof fn lemma_date_text_injective(y1: int, m1: int, d1: int, y2: int, m2: int, d2: int)
    requires
        valid_date(y1, m1, d1),
        valid_date(y2, m2, d2),
        date_text(y1, m1, d1) == date_text(y2, m2, d2),
    ensures
        y1 == y2 && m1 == m2 && d1 == d2,
{
    let a = date_text(y1, m1, d1);
    let b = date_text(y2, m2, d2);
    reveal_with_fuel(pow10, 3);
    lemma_padded_value(m1 as nat, 2);
    lemma_padded_value(m2 as nat, 2);
    lemma_padded_value(d1 as nat, 2);
    lemma_padded_value(d2 as nat, 2);
    let n = year_text(y1).len() as int;
    assert(a.len() == n + 6);
    assert(b.len() == year_text(y2).len() + 6);
    assert(year_text(y1) =~= a.subrange(0, n));
    assert(year_text(y2) =~= b.subrange(0, n));
    assert(padded_digits(m1 as nat, 2) =~= a.subrange(n + 1, n + 3));
    assert(padded_digits(m2 as nat, 2) =~= b.subrange(n + 1, n + 3));
    assert(padded_digits(d1 as nat, 2) =~= a.subrange(n + 4, n + 6));
    assert(padded_digits(d2 as nat, 2) =~= b.subrange(n + 4, n + 6));
    lemma_year_text_injective(y1, y2);
}

/// Years are told apart by their text.
proof fn lemma_year_text_injective(y1: int, y2: int)
    requires
        year_text(y1) == year_text(y2),
    ensures
        y1 == y2,
{
    lemma_padded_value(y1 as nat, 4);
    lemma_padded_value(y2 as nat, 4);
    lemma_padded_value((-y1) as nat, 3);
    lemma_padded_value((-y2) as nat, 3);
    if y1 < 0 {
        assert(year_text(y1)[0] == '-');
        if y2 >= 0 {
            assert(is_digit(padded_digits(y2 as nat, 4)[0]));
        } else {
            assert(year_text(y1).drop_first() =~= padded_digits((-y1) as nat, 3));
            assert(year_text(y2).drop_first() =~= padded_digits((-y2) as nat, 3));
        }
    } else if y2 < 0 {
        assert(year_text(y2)[0] == '-');
        assert(is_digit(padded_digits(y1 as nat, 4)[0]));
    }
}

/// Two instants have the same date key exactly when they lie in the same UTC
/// day.
pub proof fn law_date_key_names_the_day(a: Seq<char>, days_a: int, b: Seq<char>, days_b: int)
    requires
        is_date_key(a, days_a),
        is_date_key(b, days_b),
    ensures
        a == b <==> days_a == days_b,
{
    let (y1, m1, d1) = choose|year: int, month: int, day: int|
        valid_date(year, month, day) && day_number(year, month, day) == days_a && a
            == #[trigger] date_text(year, month, day);
    let (y2, m2, d2) = choose|year: int, month: int, day: int|
        valid_date(year, month, day) && day_number(year, month, day) == days_b && b
            == #[trigger] date_text(year, month, day);
    if days_a == days_b {
        law_dates_are_distinct(y1, m1, d1, y2, m2, d2);
    }
    if a == b {
        lemma_date_text_injective(y1, m1, d1, y2, m2, d2);
    }
}

/// Reads the system clock with `SystemTime::elapsed`, called on the epoch: the
/// whole seconds since the epoch and the nanoseconds of the started second;
/// nothing for a clock set before the epoch. What the clock says is left open.
#[verifier::external_body]
fn elapsed_since_epoch() -> (r: Option<(u64, u32)>)
    ensures
        r matches Some(elapsed) ==> elapsed.1 < 1_000_000_000,
{
    std::time::UNIX_EPOCH.elapsed().ok().map(|elapsed| (elapsed.as_secs(), elapsed.subsec_nanos()))
}

/// The seconds and nanoseconds that the clock gives; zero for a clock set before
/// the epoch, which gives nothing.
pub fn elapsed_or_zero(elapsed: Option<(u64, u32)>) -> (r: (u64, u32))
    ensures
        r == (match elapsed {
            Some(given) => given,
            None => (0u64, 0u32),
        }),
{
    match elapsed {
        Some(given) => given,
        None => (0, 0),
    }
}

/// A count held in 64 bits, read as a signed number.
pub open spec fn signed_64(count: int) -> int {
    let low = count % 0x1_0000_0000_0000_0000;
    if low <= i64::MAX {
        low
    } else {
        low - 0x1_0000_0000_0000_0000
    }
}

/// A count of seconds since the epoch as a signed number.
pub fn epoch_seconds(seconds: u64) -> (r: i64)
    ensures
        r == signed_64(seconds as int),
{
    if seconds > 0x7fff_ffff_ffff_ffff {
        (seconds as i128 - 0x1_0000_0000_0000_0000) as i64
    } else {
        seconds as i64
    }
}

/// A count of seconds and nanoseconds since the epoch in milliseconds; counts
/// past 64 bits wrap.
pub fn epoch_millis(seconds: u64, nanos: u32) -> (r: i64)
    requires
        nanos < 1_000_000_000,
    ensures
        r == signed_64(seconds * 1000 + nanos / 1_000_000),
{
    let millis: u128 = seconds as u128 * 1000 + (nanos / 1_000_000) as u128;
    if millis <= 0x7fff_ffff_ffff_ffff {
        millis as i64
    } else {
        let low: u64 = (millis % 0x1_0000_0000_0000_0000) as u64;
        epoch_seconds(low)
    }
}

/// The seconds since the epoch that a reading of the clock gives.
pub open spec fn read_seconds(elapsed: Option<(u64, u32)>) -> int {
    signed_64(
        match elapsed {
            Some((seconds, _)) => seconds as int,
            None => 0,
        },
    )
}

/// The milliseconds since the epoch that a reading of the clock gives.
pub open spec fn read_millis(elapsed: Option<(u64, u32)>) -> int {
    signed_64(
        match elapsed {
            Some((seconds, nanos)) => seconds * 1000 + nanos / 1_000_000,
            None => 0,
        },
    )
}

/// The seconds since the epoch that a reading of the clock gives: zero for a
/// clock set before the epoch.
pub fn seconds_of_reading(elapsed: Option<(u64, u32)>) -> (r: i64)
    ensures
        r == read_seconds(elapsed),
{
    let (seconds, _) = elapsed_or_zero(elapsed);
    epoch_seconds(seconds)
}

/// The milliseconds since the epoch that a reading of the clock gives: zero for
/// a clock set before the epoch.
pub fn millis_of_reading(elapsed: Option<(u64, u32)>) -> (r: i64)
    requires
        elapsed matches Some((_, nanos)) ==> nanos < 1_000_000_000,
    ensures
        r == read_millis(elapsed),
{
    let (seconds, nanos) = elapsed_or_zero(elapsed);
    epoch_millis(seconds, nanos)
}

/// The seconds since the epoch by the system clock.
pub fn system_epoch_seconds() -> i64 {
    seconds_of_reading(elapsed_since_epoch())
}

/// The milliseconds since the epoch by the system clock.
pub fn system_epoch_millis() -> i64 {
    millis_of_reading(elapsed_since_epoch())
}

/// The epoch, in seconds, that the value of `TEST_CLOCK_EPOCH_VARIABLE` pins.
pub fn test_clock_epoch(value: Option<&str>) -> (r: Option<i64>)
    ensures
        r is Some <==> value is Some && spelled_integer(
            value->0@,
            i64::MIN as int,
            i64::MAX as int,
        ) is Some,
        r matches Some(n) ==> spelled_integer(value->0@, i64::MIN as int, i64::MAX as int) == Some(
            n as int,
        ),
{
    match value {
        Some(text) => parse_signed(text),
        None => None,
    }
}

/// The current epoch in seconds: the pinned one, or else the system clock's.
pub fn now_epoch(pinned: Option<i64>) -> (r: i64)
    ensures
        pinned matches Some(epoch) ==> r == epoch,
{
    match pinned {
        Some(epoch) => epoch,
        None => system_epoch_seconds(),
    }
}

/// A pinned epoch in milliseconds, held within 64 bits.
pub open spec fn saturated_millis(epoch: int) -> int {
    if epoch * 1000 > i64::MAX {
        i64::MAX as int
    } else if epoch * 1000 < i64::MIN {
        i64::MIN as int
    } else {
        epoch * 1000
    }
}

/// The current epoch in milliseconds: the pinned one, or else the system
/// clock's.
pub fn now_epoch_ms(pinned: Option<i64>) -> (r: i64)
    ensures
        pinned matches Some(epoch) ==> r == saturated_millis(epoch as int),
{
    match pinned {
        Some(epoch) => {
            let millis: i128 = epoch as i128 * 1000;
            if millis > 0x7fff_ffff_ffff_ffff {
                0x7fff_ffff_ffff_ffff
            } else if millis < -0x8000_0000_0000_0000 {
                -0x8000_0000_0000_0000
            } else {
                millis as i64
            }
        },
        None => system_epoch_millis(),
    }
}

/// The recovery clock's time from what its file holds.
pub open spec fn recovery_clock(contents: Option<Seq<char>>) -> int {
    match contents {
        Some(text) => match spelled_integer(trimmed(text), i64::MIN as int, i64::MAX as int) {
            Some(n) => n,
            None => i64::MIN as int,
        },
        None => i64::MIN as int,
    }
}

/// The recovery clock's time from what its file holds: the milliseconds
/// written there, or the earliest time where nothing readable is.
pub fn recovery_clock_now_ms(contents: Option<&str>) -> (r: i64)
    ensures
        r == recovery_clock(
            match contents {
                Some(text) => Some(text@),
                None => None,
            },
        ),
{
    match contents {
        Some(text) => match parse_signed(trim(text).as_str()) {
            Some(n) => n,
            None => i64::MIN,
        },
        None => i64::MIN,
    }
}

/// Every fourth year is a leap year, but not every hundredth unless it is a
/// four-hundredth; February has a day more in one.
pub proof fn law_leap_years(year: int)
    ensures
        year % 4 != 0 ==> !leap(year),
        year % 4 == 0 && year % 100 != 0 ==> leap(year),
        year % 100 == 0 && year % 400 != 0 ==> !leap(year),
        year % 400 == 0 ==> leap(year),
        days_in_month(year, 2) == if leap(year) {
            29int
        } else {
            28
        },
        days_in_month(year, 1) == 31 && days_in_month(year, 3) == 31 && days_in_month(year, 5) == 31
            && days_in_month(year, 7) == 31 && days_in_month(year, 8) == 31 && days_in_month(
            year,
            10,
        ) == 31 && days_in_month(year, 12) == 31,
        days_in_month(year, 4) == 30 && days_in_month(year, 6) == 30 && days_in_month(year, 9)
            == 30 && days_in_month(year, 11) == 30,
{
    assert(year % 400 == 0 ==> year % 100 == 0 && year % 4 == 0);
    assert(year % 100 == 0 ==> year % 4 == 0);
}

/// Days are counted from the first of 1970 on, one after the other: within a
/// month, from the end of a month into the next, and from December into
/// January.
pub proof fn law_days_follow_each_other(year: int, month: int, day: int)
    requires
        valid_date(year, month, day),
    ensures
        day_number(1970, 1, 1) == 0,
        day < days_in_month(year, month) ==> day_number(year, month, day + 1) == day_number(
            year,
            month,
            day,
        ) + 1,
        day == days_in_month(year, month) && month < 12 ==> day_number(year, month + 1, 1)
            == day_number(year, month, day) + 1,
        day == days_in_month(year, month) && month == 12 ==> day_number(year + 1, 1, 1)
            == day_number(year, month, day) + 1,
        running_day_number(year, month, day) == day_number(year, month, day),
{
    lemma_months(year);
    law_year_length(year);
    lemma_running_day_number(year, month, day);
    lemma_months(1970);
    lemma_months(year + 1);
    assert(days_to_year(1970) == 0);
}

/// A moment belongs to the day that has begun and not ended by it, 24 hours
/// long.
pub proof fn law_moments_belong_to_their_day(epoch_ms: int)
    ensures
        day_of_instant(epoch_ms) * 86_400_000 <= epoch_ms,
        epoch_ms < day_of_instant(epoch_ms) * 86_400_000 + 86_400_000,
        day_of_instant(0) == 0,
{
}

/// A date is written as four, two and two digits with hyphens between.
pub proof fn law_dates_are_written(year: int, month: int, day: int)
    requires
        valid_date(year, month, day),
        0 <= year <= 9999,
    ensures
        date_text(year, month, day).len() == 10,
        date_text(year, month, day)[4] == '-',
        date_text(year, month, day)[7] == '-',
        all_digits(date_text(year, month, day).subrange(0, 4)),
        digits_value(date_text(year, month, day).subrange(0, 4)) == year,
        digits_value(date_text(year, month, day).subrange(5, 7)) == month,
        digits_value(date_text(year, month, day).subrange(8, 10)) == day,
{
    reveal_with_fuel(pow10, 5);
    lemma_padded_value(year as nat, 4);
    lemma_padded_value(month as nat, 2);
    lemma_padded_value(day as nat, 2);
    let text = date_text(year, month, day);
    assert(text.subrange(0, 4) =~= padded_digits(year as nat, 4));
    assert(text.subrange(5, 7) =~= padded_digits(month as nat, 2));
    assert(text.subrange(8, 10) =~= padded_digits(day as nat, 2));
}

/// A reading of the clock gives its seconds, and a thousand milliseconds for
/// each of them with those of its nanoseconds; a clock before the epoch gives
/// zero.
pub proof fn law_readings_are_counted(seconds: u64, nanos: u32)
    requires
        seconds * 1000 + 1000 <= i64::MAX,
        nanos < 1_000_000_000,
    ensures
        read_seconds(None) == 0,
        read_millis(None) == 0,
        read_seconds(Some((seconds, nanos))) == seconds,
        read_millis(Some((seconds, nanos))) == seconds * 1000 + nanos / 1_000_000,
        read_millis(Some((seconds, nanos))) / 1000 == read_seconds(Some((seconds, nanos))),
{
}

/// A pinned epoch counts a thousand milliseconds for each second, up to what
/// 64 bits hold.
pub proof fn law_pinned_epochs_are_counted(epoch: int)
    ensures
        i64::MIN <= epoch * 1000 <= i64::MAX ==> saturated_millis(epoch) == epoch * 1000,
        i64::MIN <= saturated_millis(epoch) <= i64::MAX,
        epoch * 1000 > i64::MAX ==> saturated_millis(epoch) == i64::MAX,
        epoch * 1000 < i64::MIN ==> saturated_millis(epoch) == i64::MIN,
{
}

/// The recovery clock shows what its file spells, the white space around it
/// aside, and the earliest time where it spells nothing.
pub proof fn law_the_recovery_clock_is_read(text: Seq<char>)
    ensures
        recovery_clock(None) == i64::MIN,
        spelled_integer(trimmed(text), i64::MIN as int, i64::MAX as int) matches Some(n)
            ==> recovery_clock(Some(text)) == n,
        spelled_integer(trimmed(text), i64::MIN as int, i64::MAX as int) is None ==> recovery_clock(
            Some(text),
        ) == i64::MIN,
{
}

} // verus!
