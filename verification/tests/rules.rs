use tagua_vm::ast::Addition;
use tagua_vm::ast::Term;
use tagua_vm::errors::ParseError;
use tagua_vm::parse;
use tagua_vm::rules::expr;
use tagua_vm::rules::i64_digit;
use tagua_vm::rules::integer;
use tagua_vm::rules::root;

#[test]
fn rules_case_i64_digit() {
    assert_eq!(i64_digit(b"42"), Ok((&b""[..], 42)));
}

#[test]
fn rules_case_expr() {
    assert_eq!(expr(b"1+2"), Ok((&b""[..], Addition { a: Term { t: 1 }, b: Term { t: 2 } })));
}

#[test]
fn mod_case_i64_digit() {
    assert_eq!(i64_digit(b"42"), Ok((&b""[..], 42)));
}

#[test]
fn mod_case_expr() {
    assert_eq!(expr(b"1+2"), Ok((&b""[..], Addition { a: Term { t: 1 }, b: Term { t: 2 } })));
}

#[test]
fn case_i64_digit_leading_zeros() {
    assert_eq!(i64_digit(b"042"), Ok((&b""[..], 42)));
}

#[test]
fn case_i64_digit_overflow() {
    assert_eq!(i64_digit(b"9223372036854775808"), Err(ParseError::MalformedMatch));
}

#[test]
fn case_integer_dispatches_by_prefix() {
    assert_eq!(integer(b"0b101010"), Ok((&b""[..], 42u64)));
    assert_eq!(integer(b"0x2A"), Ok((&b""[..], 42u64)));
    assert_eq!(integer(b"052"), Ok((&b""[..], 42u64)));
    assert_eq!(integer(b"42"), Ok((&b""[..], 42u64)));
}

#[test]
fn case_root_simple_addition() {
    assert_eq!(root(b"1+2"), Ok(Addition { a: Term { t: 1 }, b: Term { t: 2 } }));
    assert_eq!(parse(b"1+2"), Ok(Addition { a: Term { t: 1 }, b: Term { t: 2 } }));
}

#[test]
fn case_root_radix_operand() {
    // `10` is decimal; `042` carries the octal prefix and is worth 34.
    assert_eq!(root(b"10+042"), Ok(Addition { a: Term { t: 10 }, b: Term { t: 34 } }));
}

#[test]
fn case_root_missing_operator() {
    assert_eq!(root(b"12"), Err(ParseError::NoMatch));
}

#[test]
fn case_root_missing_right_operand() {
    assert_eq!(root(b"12+"), Err(ParseError::NoMatch));
}
