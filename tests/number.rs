use tis_cli::number::{Number, ParseNumberError};

#[test]
fn saturation_round_trip() {
    for n in [-5000i64, -1000, -999, -998, -1, 0, 1, 998, 999, 1000, 123456] {
        let expected = n.clamp(-999, 999);
        assert_eq!(Number::from_i64(n).value() as i64, expected);
    }
    assert_eq!(Number::from_i32(i32::MIN).value(), -999);
    assert_eq!(Number::from_i16(i16::MAX).value(), 999);
    assert_eq!(Number::from_u8(255).value(), 255);
}

#[test]
fn parse_then_print_gives_clamped_decimal() {
    let cases = [("42", "42"), ("-42", "-42"), ("0", "0"), ("-0", "0"), ("999", "999"), ("1000", "999"), ("-123456", "-999"), ("007", "7")];
    for (text, printed) in cases {
        assert_eq!(Number::from_str(text).unwrap().to_string(), printed);
    }
}

#[test]
fn parse_errors() {
    assert_eq!(Number::from_str(""), Err(ParseNumberError::Empty));
    assert_eq!(Number::from_str("-"), Err(ParseNumberError::NoDigits));
    assert_eq!(Number::from_str("12a"), Err(ParseNumberError::InvalidDigit('a')));
    assert_eq!(Number::from_str("--1"), Err(ParseNumberError::InvalidDigit('-')));
    assert_eq!(Number::from_str(" 1"), Err(ParseNumberError::InvalidDigit(' ')));
}

#[test]
fn saturating_arithmetic() {
    let a = Number::from_i32(990);
    let b = Number::from_i32(20);
    assert_eq!(a.add(b).value(), 999);
    assert_eq!(a.neg().sub(b).value(), -999);
    assert_eq!(a.sub(b).value(), 970);
    assert_eq!(a.neg().value(), -990);
    let mut c = a;
    c.add_assign(b);
    assert_eq!(c.value(), 999);
    c.sub_assign(Number::from_i32(999));
    assert!(c.is_zero());
    c.set_value(-2000);
    assert_eq!(c.value(), -999);
    assert_eq!(Number::new(), Number::zero());
}

#[test]
fn to_string_is_decimal() {
    assert_eq!(Number::from_i32(-7).to_string(), "-7");
    assert_eq!(Number::from_i32(305).to_string(), "305");
}
