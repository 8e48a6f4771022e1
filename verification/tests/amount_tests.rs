use brc20_index::amount::{decimal_text, decode_amount, AmountError};
use brc20_index::deploy::{parse_decimals, parse_small_number};

#[test]
fn whole_number_is_scaled_by_the_decimals() {
    assert_eq!(decode_amount("21000000", 8), Ok(2_100_000_000_000_000));
    assert_eq!(decode_amount("1000", 8), Ok(100_000_000_000));
    assert_eq!(decode_amount("1", 0), Ok(1));
    assert_eq!(decode_amount("1", 18), Ok(1_000_000_000_000_000_000));
}

#[test]
fn fraction_is_padded_to_the_decimals() {
    assert_eq!(decode_amount("12.5", 2), Ok(1250));
    assert_eq!(decode_amount("12.50", 2), Ok(1250));
    assert_eq!(decode_amount("0.000001", 6), Ok(1));
    assert_eq!(decode_amount("0.5", 1), Ok(5));
}

#[test]
fn point_at_either_end_is_accepted() {
    assert_eq!(decode_amount(".5", 1), Ok(5));
    assert_eq!(decode_amount("5.", 0), Ok(5));
    assert_eq!(decode_amount("5.", 3), Ok(5000));
}

#[test]
fn zero_is_decoded() {
    assert_eq!(decode_amount("0", 18), Ok(0));
    assert_eq!(decode_amount("0.0", 8), Ok(0));
    assert_eq!(decode_amount("000", 0), Ok(0));
}

#[test]
fn leading_zeros_do_not_change_the_value() {
    assert_eq!(decode_amount("0042", 1), Ok(420));
}

#[test]
fn empty_string_is_rejected() {
    assert_eq!(decode_amount("", 8), Err(AmountError::Empty));
}

#[test]
fn non_numeric_strings_are_rejected() {
    assert_eq!(decode_amount("abc", 8), Err(AmountError::NotNumeric));
    assert_eq!(decode_amount("12a", 8), Err(AmountError::NotNumeric));
    assert_eq!(decode_amount("1e5", 8), Err(AmountError::NotNumeric));
    assert_eq!(decode_amount(" 1", 8), Err(AmountError::NotNumeric));
    assert_eq!(decode_amount("+1", 8), Err(AmountError::NotNumeric));
    assert_eq!(decode_amount(".", 8), Err(AmountError::NotNumeric));
}

#[test]
fn negative_amount_is_rejected() {
    assert_eq!(decode_amount("-1", 8), Err(AmountError::NotNumeric));
    assert_eq!(decode_amount("-0.5", 8), Err(AmountError::NotNumeric));
}

#[test]
fn more_than_one_point_is_rejected() {
    assert_eq!(decode_amount("1.2.3", 8), Err(AmountError::MultiplePoints));
    assert_eq!(decode_amount("1..2", 8), Err(AmountError::MultiplePoints));
}

#[test]
fn non_numeric_comes_before_multiple_points() {
    assert_eq!(decode_amount("1.2.x", 8), Err(AmountError::NotNumeric));
}

#[test]
fn too_many_fraction_digits_are_rejected() {
    assert_eq!(decode_amount("1.234", 2), Err(AmountError::TooManyDecimals));
    assert_eq!(decode_amount("1.5", 0), Err(AmountError::TooManyDecimals));
    assert_eq!(decode_amount("1.234", 3), Ok(1234));
}

#[test]
fn largest_value_fits_and_the_next_overflows() {
    assert_eq!(
        decode_amount("340282366920938463463374607431768211455", 0),
        Ok(u128::MAX)
    );
    assert_eq!(
        decode_amount("340282366920938463463374607431768211456", 0),
        Err(AmountError::Overflow)
    );
    assert_eq!(
        decode_amount("340282366920938463463.374607431768211455", 18),
        Ok(u128::MAX)
    );
    assert_eq!(
        decode_amount("340282366920938463464", 18),
        Err(AmountError::Overflow)
    );
}

#[test]
fn padding_can_overflow() {
    assert_eq!(
        decode_amount("34028236692093846346337460743176821146", 1),
        Err(AmountError::Overflow)
    );
    assert_eq!(
        decode_amount("34028236692093846346337460743176821145", 1),
        Ok(340282366920938463463374607431768211450)
    );
}

#[test]
fn number_is_written_in_decimal_digits() {
    assert_eq!(decimal_text(0), "0");
    assert_eq!(decimal_text(7), "7");
    assert_eq!(decimal_text(10), "10");
    assert_eq!(decimal_text(1234567890), "1234567890");
    assert_eq!(decimal_text(100_000_000_000), "100000000000");
    assert_eq!(decimal_text(u128::MAX), "340282366920938463463374607431768211455");
}

#[test]
fn written_number_decodes_to_itself() {
    for n in [0u128, 1, 9, 10, 99, 100, 2_100_000_000_000_000, u128::MAX] {
        assert_eq!(decode_amount(&decimal_text(n), 0), Ok(n));
    }
}

#[test]
fn decimals_default_to_eighteen() {
    assert_eq!(parse_decimals(&None), Some(18));
}

#[test]
fn decimals_up_to_eighteen_are_accepted() {
    assert_eq!(parse_decimals(&Some("0".to_string())), Some(0));
    assert_eq!(parse_decimals(&Some("8".to_string())), Some(8));
    assert_eq!(parse_decimals(&Some("18".to_string())), Some(18));
    assert_eq!(parse_decimals(&Some("018".to_string())), Some(18));
}

#[test]
fn decimals_may_carry_one_leading_plus() {
    assert_eq!(parse_decimals(&Some("+8".to_string())), Some(8));
    assert_eq!(parse_decimals(&Some("+0".to_string())), Some(0));
    assert_eq!(parse_decimals(&Some("+18".to_string())), Some(18));
    assert_eq!(parse_decimals(&Some("+008".to_string())), Some(8));
    assert_eq!(parse_decimals(&Some("+19".to_string())), None);
    assert_eq!(parse_decimals(&Some("+".to_string())), None);
    assert_eq!(parse_decimals(&Some("++8".to_string())), None);
    assert_eq!(parse_decimals(&Some("8+".to_string())), None);
    assert_eq!(parse_decimals(&Some("+-8".to_string())), None);
    assert_eq!(parse_decimals(&Some("+ 8".to_string())), None);
}

#[test]
fn decimals_are_read_as_an_unsigned_integer_is_parsed() {
    let samples = [
        "", "+", "-", "0", "+0", "-0", "7", "+7", "-7", "18", "+18", "19", "+19", "018", "+018",
        "0000000000000000000018", "255", "256", "+255", "99999999999999999999", "1 ", " 1",
        "1.0", "1e1", "0x10", "++1", "+-1", "1+", "\u{0661}", "\u{ff11}", "eighteen",
    ];
    for s in samples {
        let expected = s.parse::<u8>().ok().filter(|v| *v <= 18);
        assert_eq!(parse_decimals(&Some(s.to_string())), expected, "for {:?}", s);
        if !s.starts_with('+') {
            assert_eq!(parse_small_number(s), expected, "for {:?}", s);
        }
    }
}

#[test]
fn decimals_over_eighteen_or_malformed_are_refused() {
    assert_eq!(parse_decimals(&Some("19".to_string())), None);
    assert_eq!(parse_decimals(&Some("255".to_string())), None);
    assert_eq!(parse_decimals(&Some("1000".to_string())), None);
    assert_eq!(parse_decimals(&Some("".to_string())), None);
    assert_eq!(parse_decimals(&Some("-1".to_string())), None);
    assert_eq!(parse_decimals(&Some("8.0".to_string())), None);
    assert_eq!(parse_decimals(&Some("x".to_string())), None);
}
