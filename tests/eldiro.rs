use trust::eldiro::{extract_digits, extract_op, extract_whitespace, Expr, Number, Op};

#[test]
fn parse_number() {
    assert_eq!(Number::new("123"), ("", Number(123)));
}

#[test]
fn parse_add_op() {
    assert_eq!(Op::new("+"), ("", Op::Add));
}

#[test]
fn parse_sub_op() {
    assert_eq!(Op::new("-"), ("", Op::Sub));
}

#[test]
fn parse_mul_op() {
    assert_eq!(Op::new("*"), ("", Op::Mul));
}

#[test]
fn parse_div_op() {
    assert_eq!(Op::new("/"), ("", Op::Div));
}

#[test]
fn parse_one_plus_two() {
    assert_eq!(
        Expr::new("1+2"),
        (
            "",
            Expr {
                lhs: Number(1),
                rhs: Number(2),
                op: Op::Add,
            }
        ),
    );
}

#[test]
fn parse_expr_with_whitespace() {
    assert_eq!(
        Expr::new("2 * 2"),
        (
            "",
            Expr {
                lhs: Number(2),
                rhs: Number(2),
                op: Op::Mul,
            },
        ),
    );
}

#[test]
fn eldiro_extract_one_digit() {
    assert_eq!(extract_digits("1+2"), ("+2", "1"));
}

#[test]
fn eldiro_extract_multiple_digits() {
    assert_eq!(extract_digits("10-20"), ("-20", "10"));
}

#[test]
fn do_not_extract_anything_from_empty_input() {
    assert_eq!(extract_digits(""), ("", ""));
}

#[test]
fn eldiro_extract_digits_with_no_remainder() {
    assert_eq!(extract_digits("100"), ("", "100"));
}

#[test]
fn extract_plus() {
    assert_eq!(extract_op("+2"), ("2", "+"));
}

#[test]
fn extract_minus() {
    assert_eq!(extract_op("-10"), ("10", "-"));
}

#[test]
fn extract_star() {
    assert_eq!(extract_op("*3"), ("3", "*"));
}

#[test]
fn extract_slash() {
    assert_eq!(extract_op("/4"), ("4", "/"));
}

#[test]
fn eldiro_extract_spaces() {
    assert_eq!(extract_whitespace("    1"), ("1", "    "));
}

#[test]
fn extract_unicode_whitespace() {
    assert_eq!(extract_whitespace("\t\u{a0}\r\n 7"), ("7", "\t\u{a0}\r\n "));
}

#[test]
fn parse_expr_with_trailing_text() {
    assert_eq!(
        Expr::new("12 /3 rest"),
        (
            " rest",
            Expr {
                lhs: Number(12),
                rhs: Number(3),
                op: Op::Div,
            },
        ),
    );
}

#[test]
fn parse_largest_number() {
    assert_eq!(Number::new("2147483647x"), ("x", Number(2147483647)));
}

#[test]
fn parse_number_with_leading_zeros() {
    assert_eq!(Number::new("0042-"), ("-", Number(42)));
}

#[test]
fn parse_checks_expression_first() {
    assert_eq!(
        Expr::parse("2 * 2"),
        Some((
            "",
            Expr {
                lhs: Number(2),
                rhs: Number(2),
                op: Op::Mul,
            },
        )),
    );
    assert_eq!(
        Expr::parse("7\u{3000}-\t1;"),
        Some((
            ";",
            Expr {
                lhs: Number(7),
                rhs: Number(1),
                op: Op::Sub,
            },
        )),
    );
    assert_eq!(Expr::parse(""), None);
    assert_eq!(Expr::parse("1 % 2"), None);
    assert_eq!(Expr::parse("1 +"), None);
    assert_eq!(Expr::parse("x + 1"), None);
    assert_eq!(Expr::parse("2147483648 + 1"), None);
    assert_eq!(Expr::parse("1 + 2147483648"), None);
}
