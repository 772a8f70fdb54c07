use geocoding::fixed::{format_fixed, format_i64, format_u64, parse_fixed, parse_u64};

#[test]
fn parse_plain_integer() {
    assert_eq!(parse_fixed("0"), Some(0));
    assert_eq!(parse_fixed("42"), Some(42_000_000_000));
    assert_eq!(parse_fixed("-7"), Some(-7_000_000_000));
}

#[test]
fn parse_fractions() {
    assert_eq!(parse_fixed("11.5884858"), Some(11_588_485_800));
    assert_eq!(parse_fixed("48.1700887"), Some(48_170_088_700));
    assert_eq!(parse_fixed("-0.5"), Some(-500_000_000));
    assert_eq!(parse_fixed("2600968.75"), Some(2_600_968_750_000_000));
}

#[test]
fn parse_truncates_beyond_nine_places() {
    assert_eq!(parse_fixed("7.451352119445801"), Some(7_451_352_119));
    assert_eq!(parse_fixed("46.92793655395508"), Some(46_927_936_553));
    assert_eq!(parse_fixed("-7.451352119445801"), Some(-7_451_352_119));
}

#[test]
fn parse_exponents() {
    assert_eq!(parse_fixed("1e-9"), Some(1));
    assert_eq!(parse_fixed("1.5e2"), Some(150_000_000_000));
    assert_eq!(parse_fixed("2.5e-10"), Some(0));
    assert_eq!(parse_fixed("1E3"), Some(1_000_000_000_000));
    assert_eq!(parse_fixed("1e+2"), Some(100_000_000_000));
}

#[test]
fn parse_rejects_malformed() {
    assert_eq!(parse_fixed(""), None);
    assert_eq!(parse_fixed("abc"), None);
    assert_eq!(parse_fixed("--5"), None);
    assert_eq!(parse_fixed("5."), None);
    assert_eq!(parse_fixed(".5"), None);
    assert_eq!(parse_fixed("1e"), None);
    assert_eq!(parse_fixed("12.3.4"), None);
    assert_eq!(parse_fixed("1 "), None);
}

#[test]
fn parse_rejects_out_of_range() {
    // Far past what a 64-bit fixed-point value holds.
    assert_eq!(parse_fixed("1e300"), None);
    assert_eq!(parse_fixed("9223372036854775808"), None);
    // More exponent digits than the grammar admits.
    assert_eq!(parse_fixed("1e1000"), None);
}

#[test]
fn format_whole_numbers_without_a_point() {
    assert_eq!(format_fixed(0), "0");
    assert_eq!(format_fixed(4_000_000_000), "4");
    assert_eq!(format_fixed(1_197_427_000_000_000), "1197427");
}

#[test]
fn format_trims_trailing_zeroes() {
    assert_eq!(format_fixed(1_500_000_000), "1.5");
    assert_eq!(format_fixed(2_600_968_750_000_000), "2600968.75");
    assert_eq!(format_fixed(-500_000_000), "-0.5");
    assert_eq!(format_fixed(1_000_000_001), "1.000000001");
    assert_eq!(format_fixed(-1), "-0.000000001");
    assert_eq!(format_fixed(50_000_000), "0.05");
}

#[test]
fn format_then_parse_round_trips() {
    for v in [
        0,
        1,
        -1,
        42_000_000_000,
        -500_000_000,
        7_451_352_119,
        46_927_936_553,
        2_600_968_750_000_000,
        -1_197_427_000_000_000,
        i64::MAX,
    ] {
        assert_eq!(parse_fixed(&format_fixed(v)), Some(v));
    }
}

#[test]
fn parse_u64_digits_only() {
    assert_eq!(parse_u64("0"), Some(0));
    assert_eq!(parse_u64("42"), Some(42));
    assert_eq!(parse_u64("18446744073709551615"), Some(u64::MAX));
    assert_eq!(parse_u64(""), None);
    assert_eq!(parse_u64("-1"), None);
    assert_eq!(parse_u64("4 2"), None);
    assert_eq!(parse_u64("18446744073709551616"), None);
}

#[test]
fn format_integers() {
    assert_eq!(format_u64(0), "0");
    assert_eq!(format_u64(3084), "3084");
    assert_eq!(format_i64(-25), "-25");
    assert_eq!(format_i64(978), "978");
    assert_eq!(format_i64(i64::MIN), "-9223372036854775808");
}
