use tagua_vm::comments::comment;
use tagua_vm::comments::comment_delimited;
use tagua_vm::comments::comment_single_line;
use tagua_vm::errors::ParseError;

#[test]
fn case_comment_single_line_double_slash_empty() {
    let input = b"//";
    let output = Ok((&b""[..], &b""[..]));

    assert_eq!(comment_single_line(input), output);
    assert_eq!(comment(input), output);
}

#[test]
fn case_comment_single_line_double_slash_with_feed() {
    let input = b"// foobar\nbazqux";
    let output = Ok((&b"bazqux"[..], &b" foobar\n"[..]));

    assert_eq!(comment_single_line(input), output);
    assert_eq!(comment(input), output);
}

#[test]
fn case_comment_single_line_double_slash_with_carriage_return() {
    let input = b"// foobar\rbazqux";
    let output = Ok((&b"bazqux"[..], &b" foobar\r"[..]));

    assert_eq!(comment_single_line(input), output);
    assert_eq!(comment(input), output);
}

#[test]
fn case_comment_single_line_double_slash_with_carriage_return_feed() {
    let input = b"// foobar\r\nbazqux";
    let output = Ok((&b"bazqux"[..], &b" foobar\r\n"[..]));

    assert_eq!(comment_single_line(input), output);
    assert_eq!(comment(input), output);
}

#[test]
fn case_comment_single_line_double_slash_without_ending() {
    let input = b"// foobar";
    let output = Ok((&b""[..], &b" foobar"[..]));

    assert_eq!(comment_single_line(input), output);
    assert_eq!(comment(input), output);
}

#[test]
fn case_comment_single_line_double_slash_embedded() {
    let input = b"//foo//bar";
    let output = Ok((&b""[..], &b"foo//bar"[..]));

    assert_eq!(comment_single_line(input), output);
    assert_eq!(comment(input), output);
}

#[test]
fn case_comment_single_line_hash_empty() {
    let input = b"#";
    let output = Ok((&b""[..], &b""[..]));

    assert_eq!(comment_single_line(input), output);
    assert_eq!(comment(input), output);
}

#[test]
fn case_comment_single_line_hash_with_line_feed() {
    let input = b"# foobar\nbazqux";
    let output = Ok((&b"bazqux"[..], &b" foobar\n"[..]));

    assert_eq!(comment_single_line(input), output);
    assert_eq!(comment(input), output);
}

#[test]
fn case_comment_single_line_hash_with_carriage_return() {
    let input = b"# foobar\rbazqux";
    let output = Ok((&b"bazqux"[..], &b" foobar\r"[..]));

    assert_eq!(comment_single_line(input), output);
    assert_eq!(comment(input), output);
}

#[test]
fn case_comment_single_line_hash_with_carriage_return_line_feed() {
    let input = b"# foobar\r\nbazqux";
    let output = Ok((&b"bazqux"[..], &b" foobar\r\n"[..]));

    assert_eq!(comment_single_line(input), output);
    assert_eq!(comment(input), output);
}

#[test]
fn case_comment_single_line_hash_without_line_ending() {
    let input = b"# foobar";
    let output = Ok((&b""[..], &b" foobar"[..]));

    assert_eq!(comment_single_line(input), output);
    assert_eq!(comment(input), output);
}

#[test]
fn case_comment_single_line_hash_embedded() {
    let input = b"#foo#bar";
    let output = Ok((&b""[..], &b"foo#bar"[..]));

    assert_eq!(comment_single_line(input), output);
    assert_eq!(comment(input), output);
}

#[test]
fn case_comment_delimited_empty() {
    let input = b"/**/xyz";
    let output = Ok((&b"xyz"[..], &b""[..]));

    assert_eq!(comment_delimited(input), output);
    assert_eq!(comment(input), output);
}

#[test]
fn case_comment_delimited() {
    let input = b"/* foo bar\nbaz\r\nqux // hello,\n /*world!*/xyz */";
    let output = Ok((&b"xyz */"[..], &b" foo bar\nbaz\r\nqux // hello,\n /*world!"[..]));

    assert_eq!(comment_delimited(input), output);
    assert_eq!(comment(input), output);
}

#[test]
fn case_invalid_comment_delimited_not_closed() {
    let input = b"/*foobar";

    assert_eq!(comment_delimited(input), Err(ParseError::MalformedMatch));
    assert_eq!(comment(input), Err(ParseError::MalformedMatch));
}
