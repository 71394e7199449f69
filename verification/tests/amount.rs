use payment_engine::amount::{format_amount, parse_amount, SCALE};

fn written(units: u128) -> String {
    String::from_utf8(format_amount(units)).unwrap()
}

#[test]
fn one_unit_is_ten_thousand() {
    assert_eq!(SCALE, 10_000);
    assert_eq!(parse_amount(b"1"), Some(10_000));
}

#[test]
fn whole_numbers_are_read() {
    assert_eq!(parse_amount(b"0"), Some(0));
    assert_eq!(parse_amount(b"10"), Some(100_000));
    assert_eq!(parse_amount(b"007"), Some(70_000));
    assert_eq!(parse_amount(b"123456789"), Some(1_234_567_890_000));
}

#[test]
fn fractions_are_read() {
    assert_eq!(parse_amount(b"10.0"), Some(100_000));
    assert_eq!(parse_amount(b"5.0"), Some(50_000));
    assert_eq!(parse_amount(b"1.5"), Some(15_000));
    assert_eq!(parse_amount(b"1.05"), Some(10_500));
    assert_eq!(parse_amount(b"1.005"), Some(10_050));
    assert_eq!(parse_amount(b"1.0005"), Some(10_005));
    assert_eq!(parse_amount(b"0.0001"), Some(1));
    assert_eq!(parse_amount(b"2.742"), Some(27_420));
    assert_eq!(parse_amount(b"1234.5678"), Some(12_345_678));
}

#[test]
fn a_point_may_begin_or_end_the_text() {
    assert_eq!(parse_amount(b"3."), Some(30_000));
    assert_eq!(parse_amount(b".5"), Some(5_000));
    assert_eq!(parse_amount(b".0001"), Some(1));
}

#[test]
fn digits_after_the_fourth_are_dropped_not_rounded() {
    assert_eq!(parse_amount(b"1.23456"), Some(12_345));
    assert_eq!(parse_amount(b"1.99999"), Some(19_999));
    assert_eq!(parse_amount(b"0.00009"), Some(0));
    assert_eq!(parse_amount(b"0.123456789"), Some(1_234));
    assert_eq!(parse_amount(b"1.2345"), parse_amount(b"1.23459"));
}

#[test]
fn what_is_no_decimal_is_refused() {
    assert_eq!(parse_amount(b""), None);
    assert_eq!(parse_amount(b"."), None);
    assert_eq!(parse_amount(b"-1.0"), None);
    assert_eq!(parse_amount(b"+1.0"), None);
    assert_eq!(parse_amount(b"1.0.0"), None);
    assert_eq!(parse_amount(b"1..0"), None);
    assert_eq!(parse_amount(b"1,5"), None);
    assert_eq!(parse_amount(b"1e3"), None);
    assert_eq!(parse_amount(b" 1.0"), None);
    assert_eq!(parse_amount(b"1.0 "), None);
    assert_eq!(parse_amount(b"abc"), None);
    assert_eq!(parse_amount(b"1.2x"), None);
    assert_eq!(parse_amount(b"1.23456x"), None);
    assert_eq!(parse_amount(b"NaN"), None);
    assert_eq!(parse_amount(b"/"), None);
    assert_eq!(parse_amount(b":"), None);
}

#[test]
fn the_largest_amount_is_read_and_the_next_is_refused() {
    assert_eq!(parse_amount(b"1844674407370955.1615"), Some(u64::MAX));
    assert_eq!(parse_amount(b"1844674407370955.16159"), Some(u64::MAX));
    assert_eq!(parse_amount(b"1844674407370955.1616"), None);
    assert_eq!(parse_amount(b"1844674407370956"), None);
    assert_eq!(parse_amount(b"18446744073709551616"), None);
    assert_eq!(parse_amount(b"99999999999999999999999999999999999999999999999999"), None);
    assert_eq!(parse_amount(b"99999999999999999999999999999999999999999999999999.x"), None);
    assert_eq!(parse_amount(b"00000000000000000000000000000000000000000000000001.5"), Some(15_000));
}

#[test]
fn amounts_are_written_with_four_fractional_digits() {
    assert_eq!(written(0), "0.0000");
    assert_eq!(written(1), "0.0001");
    assert_eq!(written(9_999), "0.9999");
    assert_eq!(written(10_000), "1.0000");
    assert_eq!(written(100_000), "10.0000");
    assert_eq!(written(50_000), "5.0000");
    assert_eq!(written(27_420), "2.7420");
    assert_eq!(written(12_345_678), "1234.5678");
    assert_eq!(written(10_050), "1.0050");
    assert_eq!(written(u64::MAX as u128), "1844674407370955.1615");
    assert_eq!(written(u128::MAX), "34028236692093846346337460743176821.1455");
}

#[test]
fn reading_what_was_written_gives_the_amount_back() {
    for units in [0u64, 1, 9, 10, 99, 9_999, 10_000, 10_001, 123_456_789, u64::MAX - 1, u64::MAX] {
        assert_eq!(parse_amount(&format_amount(units as u128)), Some(units));
    }
}
