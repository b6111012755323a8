use local_api_relay::decimal::{
    format_decimal, parse_decimal, parse_non_negative_decimal, parse_positive_decimal,
};
use local_api_relay::numbers::{padded_digits_text, parse_signed, parse_unsigned, signed_text};
use local_api_relay::timeutil::{
    civil_from_days, date_key, day_of, days_from_civil, elapsed_or_zero, epoch_millis, epoch_seconds,
    millis_of_reading, now_epoch, now_epoch_ms, recovery_clock_now_ms, seconds_of_reading,
    system_epoch_millis, system_epoch_seconds, test_clock_epoch,
};

#[test]
fn civil_dates_of_days() {
    assert_eq!(civil_from_days(0), (1970, 1, 1));
    assert_eq!(civil_from_days(-1), (1969, 12, 31));
    assert_eq!(civil_from_days(11_016), (2000, 2, 29));
    assert_eq!(civil_from_days(11_017), (2000, 3, 1));
    assert_eq!(civil_from_days(20_454), (2026, 1, 1));
    assert_eq!(civil_from_days(-719_468), (0, 3, 1));
    assert_eq!(civil_from_days(-719_529), (-1, 12, 31));
}

#[test]
fn days_and_dates_are_inverse() {
    for days in [-1_000_000_i64, -719_468, -1, 0, 1, 58, 59, 60, 11_016, 20_000, 2_932_896] {
        assert_eq!(days_from_civil(civil_from_days(days)), days);
    }
    // A month past December runs on.
    assert_eq!(days_from_civil((2025, 13, 1)), days_from_civil((2026, 1, 1)));
}

#[test]
fn date_keys() {
    assert_eq!(date_key(0), "1970-01-01");
    assert_eq!(date_key(-1), "1969-12-31");
    assert_eq!(date_key(86_399_999), "1970-01-01");
    assert_eq!(date_key(86_400_000), "1970-01-02");
    assert_eq!(date_key(1_767_225_600_000), "2026-01-01");
    assert_eq!(date_key(-62_198_755_200_000), "-001-01-01");
    assert_eq!(day_of(-1), -1);
}

#[test]
fn clocks() {
    assert_eq!(epoch_seconds(5), 5);
    assert_eq!(epoch_seconds(u64::MAX), -1);
    assert_eq!(epoch_millis(2, 1_999_999), 2_001);
    assert_eq!(elapsed_or_zero(Some((2, 5))), (2, 5));
    assert_eq!(elapsed_or_zero(None), (0, 0));
    assert_eq!(seconds_of_reading(Some((2, 999_999_999))), 2);
    assert_eq!(seconds_of_reading(Some((u64::MAX, 0))), -1);
    assert_eq!(seconds_of_reading(None), 0);
    assert_eq!(millis_of_reading(Some((2, 1_999_999))), 2_001);
    assert_eq!(millis_of_reading(Some((u64::MAX, 0))), -1_000);
    assert_eq!(millis_of_reading(None), 0);
    assert_eq!(now_epoch(Some(7)), 7);
    assert_eq!(now_epoch_ms(Some(7)), 7_000);
    assert_eq!(now_epoch_ms(Some(i64::MAX)), i64::MAX);
    assert_eq!(now_epoch_ms(Some(i64::MIN)), i64::MIN);
    assert!(system_epoch_seconds() > 1_600_000_000);
    assert!(system_epoch_millis() > 1_600_000_000_000);
    assert!(now_epoch(None) > 1_600_000_000);
    assert_eq!(test_clock_epoch(Some("1700000000")), Some(1_700_000_000));
    assert_eq!(test_clock_epoch(Some("soon")), None);
    assert_eq!(test_clock_epoch(None), None);
    assert_eq!(recovery_clock_now_ms(Some(" 1234\n")), 1234);
    assert_eq!(recovery_clock_now_ms(Some("x")), i64::MIN);
    assert_eq!(recovery_clock_now_ms(None), i64::MIN);
}

#[test]
fn integers_are_read_as_std_reads_them() {
    for text in ["", "+", "-", "0", "+7", "-7", "007", "9223372036854775807",
        "9223372036854775808", "-9223372036854775808", "-9223372036854775809", "1 ", "1_0", "٣"]
    {
        assert_eq!(parse_signed(text), text.parse::<i64>().ok(), "{text}");
        assert_eq!(parse_unsigned(text, u64::MAX), text.parse::<u64>().ok(), "{text}");
        assert_eq!(
            parse_unsigned(text, 65_535),
            text.parse::<u16>().ok().map(u64::from),
            "{text}"
        );
    }
    assert_eq!(signed_text(i64::MIN), "-9223372036854775808");
    assert_eq!(padded_digits_text(7, 6), "000007");
    assert_eq!(padded_digits_text(1_234_567, 6), "1234567");
}

#[test]
fn decimals_are_read() {
    assert_eq!(parse_decimal(" 1.5 ", "x", "f").unwrap(), 1_500_000);
    assert_eq!(parse_decimal("-0.000001", "x", "f").unwrap(), -1);
    assert_eq!(parse_decimal("5.", "x", "f").unwrap(), 5_000_000);
    assert_eq!(parse_decimal("0.1", "x", "f").unwrap(), 100_000);
    assert_eq!(
        parse_decimal("9223372036854.775807", "x", "f").unwrap(),
        i64::MAX
    );
    assert_eq!(
        parse_decimal("-9223372036854.775808", "x", "f").unwrap(),
        i64::MIN
    );
    for text in ["", ".5", "-", "1.2345678", "1e3", "+1", "1.2.3", "1,5"] {
        let error = parse_decimal(text, "cost multiplier", "cost_multiplier").unwrap_err();
        assert_eq!(error.field, "cost_multiplier");
        assert_eq!(
            error.message,
            "cost multiplier must be a decimal with at most six decimal places"
        );
    }
    for text in ["9223372036854.775808", "99999999999999999999", "-9223372036854.775809"] {
        let error = parse_decimal(text, "input price", "input_price_rmb").unwrap_err();
        assert_eq!(error.message, "input price is outside the supported range");
    }
    assert_eq!(
        parse_positive_decimal("0", "cost multiplier", "cost_multiplier").unwrap_err().message,
        "cost multiplier must be greater than zero"
    );
    assert_eq!(parse_positive_decimal("0.000001", "m", "f").unwrap(), 1);
    assert_eq!(
        parse_non_negative_decimal("-1", "input price", "f").unwrap_err().message,
        "input price must not be negative"
    );
    assert_eq!(parse_non_negative_decimal("-0", "input price", "f").unwrap(), 0);
}

#[test]
fn decimals_are_written() {
    assert_eq!(format_decimal(0), "0");
    assert_eq!(format_decimal(1_000_000), "1");
    assert_eq!(format_decimal(1_500_000), "1.5");
    assert_eq!(format_decimal(-1), "-0.000001");
    assert_eq!(format_decimal(20_000), "0.02");
    assert_eq!(format_decimal(i64::MIN), "-9223372036854.775808");
}

#[test]
fn decimals_round_trip() {
    for value in [i64::MIN, -1_000_001, -1, 0, 1, 20_000, 999_999, 1_000_000, i64::MAX] {
        assert_eq!(parse_decimal(&format_decimal(value), "x", "f").unwrap(), value);
    }
}
