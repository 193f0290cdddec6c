use trust::utils::{
    extract_digits, extract_ident, extract_whitespace, extract_whitespace1, tag, take_while,
    take_while1,
};

#[test]
fn utils_extract_one_digit() {
    assert_eq!(extract_digits("1+2"), Ok(("+2", "1")));
}

#[test]
fn utils_extract_multiple_digits() {
    assert_eq!(extract_digits("10-20"), Ok(("-20", "10")));
}

#[test]
fn do_not_extract_digits_from_invalid_input() {
    assert_eq!(extract_digits("abcd"), Err("expected digits".to_string()));
}

#[test]
fn utils_extract_digits_with_no_remainder() {
    assert_eq!(extract_digits("100"), Ok(("", "100")));
}

#[test]
fn utils_extract_spaces() {
    assert_eq!(extract_whitespace("    1"), ("1", "    "));
}

#[test]
fn extract_newlines_or_spaces() {
    assert_eq!(extract_whitespace(" \n   \n\nabc"), ("abc", " \n   \n\n"));
}

#[test]
fn do_not_extract_spaces1_when_input_does_not_start_with_them() {
    assert_eq!(
        extract_whitespace1("blah"),
        Err("expected a space".to_string()),
    );
}

#[test]
fn extract_alphabetic_ident() {
    assert_eq!(extract_ident("abcdEFG stop"), Ok((" stop", "abcdEFG")));
}

#[test]
fn extract_alphanumeric_ident() {
    assert_eq!(extract_ident("bazbleh13()"), Ok(("()", "bazbleh13")));
}

#[test]
fn will_not_extract_ident_beginning_with_number() {
    assert_eq!(
        extract_ident("123abc"),
        Err("expected identifier".to_string()),
    );
}

#[test]
fn tag_word() {
    assert_eq!(tag("let", "let a"), Ok(" a"))
}

#[test]
fn tag_missing() {
    assert_eq!(tag("let", "le"), Err("expected let".to_string()));
    assert_eq!(tag("=>", "= >"), Err("expected =>".to_string()));
}

#[test]
fn tag_whole_input() {
    assert_eq!(tag("fn", "fn"), Ok(""));
    assert_eq!(tag("", "abc"), Ok("abc"));
}

#[test]
fn tabs_are_not_blanks() {
    assert_eq!(extract_whitespace("\tx"), ("\tx", ""));
    assert_eq!(extract_whitespace1(""), Err("expected a space".to_string()));
}

#[test]
fn empty_input_has_no_ident() {
    assert_eq!(extract_ident(""), Err("expected identifier".to_string()));
    assert_eq!(extract_digits(""), Err("expected digits".to_string()));
}

#[test]
fn take_while_with_non_ascii() {
    assert_eq!(take_while(|c| c != 'é', "caféx"), ("éx", "caf"));
    assert_eq!(take_while(|c| c.is_alphabetic(), "ünï 1"), (" 1", "ünï"));
}

#[test]
fn take_while1_reports_given_message() {
    assert_eq!(
        take_while1(|c| c == 'z', "abc", "no z".to_string()),
        Err("no z".to_string()),
    );
    assert_eq!(take_while1(|c| c == 'z', "zzy", "no z".to_string()), Ok(("y", "zz")));
}
