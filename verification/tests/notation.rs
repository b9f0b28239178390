use smartcalc::binary64::Binary64;
use smartcalc::compiler::notation::{digit_character, push_digits, whole_in_base};
use smartcalc::compiler::number::NumberType;

fn number(value: f64) -> Binary64 {
    Binary64::from_bits(value.to_bits())
}

fn written(value: f64, number_type: NumberType) -> Option<String> {
    whole_in_base(number(value), number_type).map(|text| text.into_iter().collect())
}

const VALUES: [f64; 20] = [
    0.0,
    -0.0,
    0.75,
    1.0,
    2.0,
    7.9,
    8.0,
    10.0,
    15.0,
    16.0,
    255.0,
    1_024.5,
    2_147_483_647.0,
    2_147_483_648.0,
    1e12,
    -1.0,
    -1.5,
    -255.0,
    -2_147_483_648.0,
    -1e12,
];

#[test]
fn whole_part_in_binary_octal_and_hexadecimal() {
    for value in VALUES {
        assert_eq!(written(value, NumberType::Binary), Some(format!("{:#b}", value as i32)));
        assert_eq!(written(value, NumberType::Octal), Some(format!("{:#o}", value as i32)));
        assert_eq!(written(value, NumberType::Hexadecimal), Some(format!("{:#X}", value as i32)));
        assert_eq!(written(value, NumberType::Raw), Some(format!("{}", value as i32)));
        assert_eq!(written(value, NumberType::Decimal), None);
    }
    assert_eq!(written(f64::NAN, NumberType::Hexadecimal), Some("0x0".to_string()));
    assert_eq!(written(f64::INFINITY, NumberType::Hexadecimal), Some("0x7FFFFFFF".to_string()));
    assert_eq!(written(f64::NEG_INFINITY, NumberType::Raw), Some("-2147483648".to_string()));
}

#[test]
fn exact_texts() {
    assert_eq!(written(5.0, NumberType::Binary), Some("0b101".to_string()));
    assert_eq!(written(15.0, NumberType::Octal), Some("0o17".to_string()));
    assert_eq!(written(255.0, NumberType::Hexadecimal), Some("0xFF".to_string()));
    assert_eq!(written(-1.0, NumberType::Hexadecimal), Some("0xFFFFFFFF".to_string()));
    assert_eq!(written(-17.9, NumberType::Raw), Some("-17".to_string()));
    assert_eq!(written(0.0, NumberType::Binary), Some("0b0".to_string()));
}

#[test]
fn digits_are_written_behind_what_stands_already() {
    let mut text = vec!['='];
    push_digits(0, 2, &mut text);
    push_digits(6, 2, &mut text);
    push_digits(255, 16, &mut text);
    push_digits(u64::MAX, 10, &mut text);
    assert_eq!(text.into_iter().collect::<String>(), "=0110FF18446744073709551615");
    let digits: String = (0..16).map(digit_character).collect();
    assert_eq!(digits, "0123456789ABCDEF");
}
