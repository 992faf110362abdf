use input_reader::numbers::{parse_i64, parse_u32};
use input_reader::reader::process_line;
use input_reader::text::trimmed;

#[test]
fn integer_first_valid_line() {
    let r: Option<i64> = process_line("42\n");
    assert_eq!(r, Some(42));
}

#[test]
fn integer_invalid_line_rejected() {
    let r: Option<i64> = process_line("abc\n");
    assert_eq!(r, None);
}

#[test]
fn whitespace_is_trimmed_before_parsing() {
    let r: Option<i64> = process_line("  42  \n");
    assert_eq!(r, Some(42));
    let r: Option<i64> = process_line("\t 42 \r\n");
    assert_eq!(r, Some(42));
}

#[test]
fn decimal_point_rejected_for_integer_target() {
    let r: Option<i64> = process_line("3.14\n");
    assert_eq!(r, None);
}

#[test]
fn empty_line_rejected_for_integer_target() {
    let r: Option<i64> = process_line("\n");
    assert_eq!(r, None);
}

#[test]
fn empty_line_accepted_for_string_target() {
    let r: Option<String> = process_line("\n");
    assert_eq!(r, Some(String::new()));
}

#[test]
fn string_target_gets_trimmed_text() {
    let r: Option<String> = process_line("  hello world  \n");
    assert_eq!(r, Some(String::from("hello world")));
}

#[test]
fn bool_target_accepts_exact_words() {
    assert_eq!(process_line::<bool>("true\n"), Some(true));
    assert_eq!(process_line::<bool>(" false \n"), Some(false));
    assert_eq!(process_line::<bool>("True\n"), None);
    assert_eq!(process_line::<bool>("truee\n"), None);
    assert_eq!(process_line::<bool>("\n"), None);
}

#[test]
fn signed_integer_forms() {
    assert_eq!(process_line::<i64>("+42\n"), Some(42));
    assert_eq!(process_line::<i64>("-42\n"), Some(-42));
    assert_eq!(process_line::<i64>("-0\n"), Some(0));
    assert_eq!(process_line::<i64>("0042\n"), Some(42));
    assert_eq!(process_line::<i64>("+\n"), None);
    assert_eq!(process_line::<i64>("-\n"), None);
    assert_eq!(process_line::<i64>("4 2\n"), None);
    assert_eq!(process_line::<i64>("0x10\n"), None);
    assert_eq!(process_line::<i64>("42abc\n"), None);
}

#[test]
fn signed_integer_range_edges() {
    assert_eq!(process_line::<i64>("9223372036854775807\n"), Some(i64::MAX));
    assert_eq!(process_line::<i64>("-9223372036854775808\n"), Some(i64::MIN));
    assert_eq!(process_line::<i64>("9223372036854775808\n"), None);
    assert_eq!(process_line::<i64>("-9223372036854775809\n"), None);
    assert_eq!(process_line::<i64>("99999999999999999999999999999999\n"), None);
    assert_eq!(process_line::<i64>("-00009223372036854775808\n"), Some(i64::MIN));
}

#[test]
fn unsigned_integer_forms_and_edges() {
    assert_eq!(process_line::<u32>("7\n"), Some(7));
    assert_eq!(process_line::<u32>("+7\n"), Some(7));
    assert_eq!(process_line::<u32>("-1\n"), None);
    assert_eq!(process_line::<u32>("-0\n"), None);
    assert_eq!(process_line::<u32>("042\n"), Some(42));
    assert_eq!(process_line::<u32>("4294967295\n"), Some(u32::MAX));
    assert_eq!(process_line::<u32>("4294967296\n"), None);
}

#[test]
fn parser_sees_untrimmed_text_as_invalid() {
    assert_eq!(parse_i64(" 42"), None);
    assert_eq!(parse_i64("42"), Some(42));
    assert_eq!(parse_u32(" 7"), None);
    assert_eq!(parse_u32("7"), Some(7));
}

#[test]
fn trimmed_removes_edges_only() {
    assert_eq!(trimmed("  a b  "), "a b");
    assert_eq!(trimmed("\t\r\n x \r\n"), "x");
    assert_eq!(trimmed("x"), "x");
    assert_eq!(trimmed("   "), "");
    assert_eq!(trimmed(""), "");
}
