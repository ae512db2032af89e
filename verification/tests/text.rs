use beatbox::text::check_space;
use beatbox::text::pad_left;
use beatbox::text::pad_right;
use beatbox::text::to_decimal;
use beatbox::text::to_hundredths;
use beatbox::text::to_three_places;
use beatbox::text::to_thousandths;
use beatbox::text::trim;

#[test]
fn numbers_are_written_in_decimal() {
    assert_eq!(to_decimal(0), "0");
    assert_eq!(to_decimal(7), "7");
    assert_eq!(to_decimal(10), "10");
    assert_eq!(to_decimal(1_234_567_890), "1234567890");
    assert_eq!(to_decimal(u128::MAX), u128::MAX.to_string());
}

#[test]
fn fractions_lose_their_zeros_at_the_end() {
    assert_eq!(to_hundredths(0), "0");
    assert_eq!(to_hundredths(100), "1");
    assert_eq!(to_hundredths(150), "1.5");
    assert_eq!(to_hundredths(105), "1.05");
    assert_eq!(to_thousandths(1_000), "1");
    assert_eq!(to_thousandths(1_200), "1.2");
    assert_eq!(to_thousandths(1_230), "1.23");
    assert_eq!(to_thousandths(1_234), "1.234");
    assert_eq!(to_thousandths(4), "0.004");
}

#[test]
fn three_places_are_always_written() {
    assert_eq!(to_three_places(0), "0.000");
    assert_eq!(to_three_places(1_500), "1.500");
    assert_eq!(to_three_places(12_345), "12.345");
    assert_eq!(to_three_places(7), "0.007");
}

#[test]
fn padding_fills_up_to_the_width() {
    assert_eq!(pad_left("1.5", 6), "   1.5");
    assert_eq!(pad_left("1234567", 6), "1234567");
    assert_eq!(pad_right("12", 4), "12  ");
    assert_eq!(pad_right("12345", 4), "12345");
}

#[test]
fn white_space_is_told_as_the_standard_library_tells_it() {
    for code in 0..0x3100u32 {
        if let Some(c) = char::from_u32(code) {
            assert_eq!(check_space(c), c.is_whitespace());
        }
    }
}

#[test]
fn trimming_takes_the_white_space_off_the_ends() {
    assert_eq!(trim("  a b \n"), "a b");
    assert_eq!(trim(" \t "), "");
    assert_eq!(trim(""), "");
    assert_eq!(trim("x"), "x");
    assert_eq!(trim("\u{2003}é\u{a0}"), "é");
}
