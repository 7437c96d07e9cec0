use tagua_vm::errors::ParseError;
use tagua_vm::errors::StringError;
use tagua_vm::literals::binary;
use tagua_vm::literals::boolean;
use tagua_vm::literals::decimal;
use tagua_vm::literals::exponential;
use tagua_vm::literals::hexadecimal;
use tagua_vm::literals::identifier;
use tagua_vm::literals::null;
use tagua_vm::literals::octal;
use tagua_vm::literals::string;

fn exponential_value(input: &[u8]) -> (Vec<u8>, f64) {
    let (rest, matched) = exponential(input).unwrap();
    let value = std::str::from_utf8(matched).unwrap().parse::<f64>().unwrap();
    (rest.to_vec(), value)
}

#[test]
fn case_null() {
    assert_eq!(null(b"null"), Ok((&b""[..], None::<()>)));
}

#[test]
fn case_invalid_null() {
    assert_eq!(null(b"nul"), Err(ParseError::NoMatch));
}

#[test]
fn case_invalid_boolean() {
    assert_eq!(boolean(b"maybe"), Err(ParseError::NoMatch));
}

#[test]
fn case_boolean_true() {
    assert_eq!(boolean(b"true"), Ok((&b""[..], true)));
}

#[test]
fn case_boolean_false() {
    assert_eq!(boolean(b"false"), Ok((&b""[..], false)));
}

#[test]
fn case_binary_lowercase_b() {
    assert_eq!(binary(b"0b101010"), Ok((&b""[..], 42u64)));
}

#[test]
fn case_binary_uppercase_b() {
    assert_eq!(binary(b"0B101010"), Ok((&b""[..], 42u64)));
}

#[test]
fn case_invalid_binary_no_number() {
    assert_eq!(binary(b"0b"), Err(ParseError::MalformedMatch));
}

#[test]
fn case_octal() {
    assert_eq!(octal(b"052"), Ok((&b""[..], 42u64)));
}

#[test]
fn case_invalid_octal_not_starting_by_zero() {
    assert_eq!(octal(b"7"), Err(ParseError::NoMatch));
}

#[test]
fn case_invalid_octal_not_in_base() {
    assert_eq!(octal(b"8"), Err(ParseError::NoMatch));
}

#[test]
fn case_decimal_one_digit() {
    assert_eq!(decimal(b"7"), Ok((&b""[..], 7u64)));
}

#[test]
fn case_decimal_many_digits() {
    assert_eq!(decimal(b"42"), Ok((&b""[..], 42u64)));
}

#[test]
fn case_decimal_plus() {
    assert_eq!(decimal(b"42+"), Ok((&b"+"[..], 42u64)));
}

#[test]
fn case_hexadecimal_lowercase_x() {
    assert_eq!(hexadecimal(b"0x2a"), Ok((&b""[..], 42u64)));
}

#[test]
fn case_hexadecimal_uppercase_x() {
    assert_eq!(hexadecimal(b"0X2a"), Ok((&b""[..], 42u64)));
}

#[test]
fn case_hexadecimal_uppercase_alpha() {
    assert_eq!(hexadecimal(b"0x2A"), Ok((&b""[..], 42u64)));
}

#[test]
fn case_invalid_hexadecimal_no_number() {
    assert_eq!(hexadecimal(b"0x"), Err(ParseError::MalformedMatch));
}

#[test]
fn case_invalid_hexadecimal_not_in_base() {
    assert_eq!(hexadecimal(b"0xg"), Err(ParseError::MalformedMatch));
}

#[test]
fn case_exponential() {
    assert_eq!(exponential_value(b"123.456e+78"), (b"".to_vec(), 123.456e78f64));
}

#[test]
fn case_exponential_only_with_rational_and_fractional_part() {
    assert_eq!(exponential_value(b"123.456"), (b"".to_vec(), 123.456f64));
}

#[test]
fn case_exponential_only_with_rational_part() {
    assert_eq!(exponential_value(b"123."), (b"".to_vec(), 123.0f64));
}

#[test]
fn case_exponential_only_with_fractional_part() {
    assert_eq!(exponential_value(b".456"), (b"".to_vec(), 0.456f64));
}

#[test]
fn case_exponential_only_with_rational_and_exponent_part_with_lowercase_e() {
    assert_eq!(exponential_value(b"123.e78"), (b"".to_vec(), 123e78f64));
}

#[test]
fn case_exponential_only_with_rational_and_exponent_part_with_uppercase_e() {
    assert_eq!(exponential_value(b"123.E78"), (b"".to_vec(), 123e78f64));
}

#[test]
fn case_exponential_only_with_rational_and_unsigned_exponent_part() {
    assert_eq!(exponential_value(b"123.e78"), (b"".to_vec(), 123e78f64));
}

#[test]
fn case_exponential_only_with_rational_and_positive_exponent_part() {
    assert_eq!(exponential_value(b"123.e+78"), (b"".to_vec(), 123e78f64));
}

#[test]
fn case_exponential_only_with_rational_and_negative_exponent_part() {
    assert_eq!(exponential_value(b"123.e-78"), (b"".to_vec(), 123e-78f64));
}

#[test]
fn case_exponential_only_with_rational_and_negative_zero_exponent_part() {
    assert_eq!(exponential_value(b"123.e-0"), (b"".to_vec(), 123f64));
}

#[test]
fn case_exponential_missing_exponent_part() {
    assert_eq!(exponential_value(b".7e"), (b"e".to_vec(), 0.7f64));
}

#[test]
fn case_invalid_exponential_only_the_dot() {
    assert_eq!(exponential(b"."), Err(ParseError::NoMatch));
}

#[test]
fn case_string_single_quoted() {
    assert_eq!(string(b"'foobar'"), Ok((&b""[..], String::from("foobar"))));
}

#[test]
fn case_string_single_quoted_escaped_quote() {
    assert_eq!(string(b"'foo\\'bar'"), Ok((&b""[..], String::from("foo'bar"))));
}

#[test]
fn case_string_single_quoted_escaped_backslash() {
    assert_eq!(string(b"'foo\\\\bar'"), Ok((&b""[..], String::from("foo\\bar"))));
}

#[test]
fn case_string_single_quoted_escaped_any() {
    assert_eq!(string(b"'foo\\nbar'"), Ok((&b""[..], String::from("foo\\nbar"))));
}

#[test]
fn case_invalid_string_single_quoted_too_short() {
    assert_eq!(string(b"'"), Err(StringError::TooShort));
}

#[test]
fn case_invalid_string_single_quoted_opening_character() {
    assert_eq!(string(b"foobar'"), Err(StringError::InvalidOpeningCharacter));
}

#[test]
fn case_invalid_string_single_quoted_closing_character() {
    assert_eq!(string(b"'foobar"), Err(StringError::InvalidClosingCharacter));
}

#[test]
fn case_invalid_string_single_quoted_closing_character_is_a_backslash() {
    assert_eq!(string(b"'foobar\\"), Err(StringError::InvalidClosingCharacter));
}

#[test]
fn case_string_single_quoted_empty() {
    assert_eq!(string(b"''"), Ok((&b""[..], String::new())));
}

#[test]
fn case_invalid_string_single_quoted_encoding() {
    assert_eq!(string(b"'foo\x80bar'"), Err(StringError::InvalidEncoding));
}

#[test]
fn case_identifier() {
    assert_eq!(identifier(b"_fooBar42"), Ok((&b""[..], &b"_fooBar42"[..])));
}

#[test]
fn case_identifier_shortest() {
    assert_eq!(identifier(b"x"), Ok((&b""[..], &b"x"[..])));
}

#[test]
fn case_identifier_only_head() {
    assert_eq!(identifier(b"aB_\x80"), Ok((&b""[..], &b"aB_\x80"[..])));
}

#[test]
fn case_identifier_head_and_tail() {
    assert_eq!(identifier(b"aB_\x80aB7\xff"), Ok((&b""[..], &b"aB_\x80aB7\xff"[..])));
}

#[test]
fn case_identifier_copyright() {
    // © = 0xa9
    assert_eq!(identifier(b"\xa9"), Ok((&b""[..], &b"\xa9"[..])));
}

#[test]
fn case_identifier_non_breaking_space() {
    //   = 0xa0
    assert_eq!(identifier(b"\xa0"), Ok((&b""[..], &b"\xa0"[..])));
}

#[test]
fn case_identifier_invalid() {
    assert_eq!(identifier(b"0x"), Err(ParseError::NoMatch));
}
