use tuliprox::number::{compare_number, format_number, Decimal};
use tuliprox::text::Ordered;

fn dec(text: &str) -> Decimal {
    Decimal::parse(text).expect("a number")
}

#[test]
fn parse_reads_whole_numbers_and_fractions() {
    assert_eq!(dec("42").units, 42_000_000_000);
    assert_eq!(dec("-7").units, -7_000_000_000);
    assert_eq!(dec("+7").units, 7_000_000_000);
    assert_eq!(dec("3.25").units, 3_250_000_000);
    assert_eq!(dec("-0.5").units, -500_000_000);
    assert_eq!(dec(".5").units, 500_000_000);
    assert_eq!(dec("5.").units, 5_000_000_000);
    assert_eq!(dec("007").units, 7_000_000_000);
    assert_eq!(dec("-0").units, 0);
}

#[test]
fn parse_drops_digits_past_the_ninth() {
    assert_eq!(dec("0.1234567891").units, 123_456_789);
    assert_eq!(dec("0.0000000009").units, 0);
}

#[test]
fn parse_rejects_what_is_no_number() {
    for text in ["", "-", "+", ".", "abc", "1e3", "1.2.3", " 1", "1 ", "--1", "inf", "NaN", "1,5"] {
        assert_eq!(Decimal::parse(text), None, "{text:?}");
    }
}

#[test]
fn parse_rejects_an_integer_part_of_twenty_eight_digits() {
    assert!(Decimal::parse("999999999999999999999999999").is_some());
    assert_eq!(Decimal::parse("1000000000000000000000000000"), None);
}

#[test]
fn from_int_scales() {
    assert_eq!(Decimal::from_int(3).units, 3_000_000_000);
    assert_eq!(Decimal::from_int(-3).units, -3_000_000_000);
}

#[test]
fn compare_uses_a_tolerance_of_a_thousandth() {
    assert_eq!(compare_number(dec("1"), dec("1.0009")), Ordered::Equal);
    assert_eq!(compare_number(dec("1.0009"), dec("1")), Ordered::Equal);
    assert_eq!(compare_number(dec("1"), dec("1.001")), Ordered::Less);
    assert_eq!(compare_number(dec("1.001"), dec("1")), Ordered::Greater);
    assert_eq!(compare_number(dec("-5"), dec("5")), Ordered::Less);
    assert_eq!(
        compare_number(Decimal { units: i128::MAX }, Decimal { units: i128::MIN }),
        Ordered::Greater
    );
}

#[test]
fn format_writes_whole_numbers_without_fraction() {
    assert_eq!(format_number(dec("42")), "42");
    assert_eq!(format_number(dec("42.0005")), "42");
    assert_eq!(format_number(dec("-42.0005")), "-42");
    assert_eq!(format_number(dec("0")), "0");
    assert_eq!(format_number(dec("-0.0005")), "0");
}

#[test]
fn format_writes_fractions_without_trailing_zeros() {
    assert_eq!(format_number(dec("3.5")), "3.5");
    assert_eq!(format_number(dec("3.250")), "3.25");
    assert_eq!(format_number(dec("-0.5")), "-0.5");
    assert_eq!(format_number(dec("0.001")), "0.001");
    assert_eq!(format_number(dec("10.000000001")), "10");
    assert_eq!(format_number(dec("10.100000001")), "10.100000001");
    assert_eq!(format_number(Decimal { units: i128::MIN }), "-170141183460469231731687303715.884105728");
}

#[test]
fn a_number_written_and_read_back_is_the_same() {
    for text in ["0.5", "-12.75", "1234567.891", "0.001", "99.999999999"] {
        let n = dec(text);
        assert_eq!(Decimal::parse(&format_number(n)), Some(n));
        assert_eq!(format_number(n), text);
    }
    for (text, whole) in [("7.0004", 7), ("-7.0004", -7), ("0.0009", 0), ("123", 123)] {
        assert_eq!(Decimal::parse(&format_number(dec(text))), Some(Decimal::from_int(whole)));
    }
}
