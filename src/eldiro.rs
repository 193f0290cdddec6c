//! Arithmetic expressions of the form `number op number`, and the scanners
//! that read them.
use vstd::prelude::*;
use crate::utils::{is_digit, prefix_len, take_while, digit, lemma_longest_split, longest_split, lemma_prefix_chars};

verus! {

/// A number literal.
#[derive(Clone, Copy, Debug, PartialEq, Eq, Structural)]
pub struct Number(pub i32);

/// A binary operator.
#[derive(Clone, Copy, Debug, PartialEq, Eq, Structural)]
pub enum Op {
    Add,
    Sub,
    Mul,
    Div,
}

/// A binary operation on two number literals.
#[derive(Clone, Copy, Debug, PartialEq, Eq, Structural)]
pub struct Expr {
    pub lhs: Number,
    pub rhs: Number,
    pub op: Op,
}

/// The character has the Unicode White_Space property: the ASCII tab, line
/// feed, vertical tab, form feed, carriage return and space, next line,
/// no-break space, ogham space mark, the spaces U+2000 to U+200A, line and
/// paragraph separators, narrow no-break space, medium mathematical space and
/// ideographic space.
pub open spec fn white_space(c: char) -> bool {
    let u = c as u32;
    ||| 0x09 <= u <= 0x0d
    ||| u == 0x20
    ||| u == 0x85
    ||| u == 0xa0
    ||| u == 0x1680
    ||| 0x2000 <= u <= 0x200a
    ||| u == 0x2028
    ||| u == 0x2029
    ||| u == 0x202f
    ||| u == 0x205f
    ||| u == 0x3000
}

/// Relies on char::is_whitespace, which tells the Unicode White_Space
/// property.
#[verifier::external_body]
fn char_is_whitespace(c: char) -> (r: bool)
    ensures
        r == white_space(c),
{
    c.is_whitespace()
}

/// Value of a string of decimal digits.
pub open spec fn decimal(s: Seq<char>) -> int
    decreases s.len(),
{
    if s.len() == 0 {
        0
    } else {
        decimal(s.drop_last()) * 10 + (s.last() as int - '0' as int)
    }
}

/// Relies on str::parse::<i32>: a nonempty run of ASCII digits parses to its
/// decimal value, where that fits in an i32.
#[verifier::external_body]
fn parse_i32(s: &str) -> (r: Option<i32>)
    ensures
        (0 < s@.len() && forall|i: int| 0 <= i < s@.len() ==> is_digit(#[trigger] s@[i])) ==> ((r is Some
            <==> decimal(s@) <= i32::MAX) && (r matches Some(v) ==> v == decimal(s@))),
{
    s.parse::<i32>().ok()
}

/// `c` is one of the four operator characters.
pub open spec fn is_op(c: char) -> bool {
    c == '+' || c == '-' || c == '*' || c == '/'
}

/// The operator that `c` denotes.
pub open spec fn op_of(c: char) -> Op {
    if c == '+' {
        Op::Add
    } else if c == '-' {
        Op::Sub
    } else if c == '*' {
        Op::Mul
    } else {
        Op::Div
    }
}

/// Number of leading ASCII digits.
pub open spec fn digits_len(s: Seq<char>) -> int {
    prefix_len(s, |c: char| is_digit(c)) as int
}

/// Number of leading whitespace characters.
pub open spec fn blanks_len(s: Seq<char>) -> int {
    prefix_len(s, |c: char| white_space(c)) as int
}

/// `s` starts with a number literal that fits in an i32.
pub open spec fn starts_with_number(s: Seq<char>) -> bool {
    0 < digits_len(s) && decimal(s.take(digits_len(s))) <= i32::MAX
}

/// The value of the number literal that `s` starts with.
pub open spec fn leading_number(s: Seq<char>) -> Number {
    Number(decimal(s.take(digits_len(s))) as i32)
}

/// What follows the leading number, and the blanks after it, in `s`.
pub open spec fn after_number(s: Seq<char>) -> Seq<char> {
    let t = s.skip(digits_len(s));
    t.skip(blanks_len(t))
}

/// What follows the leading operator, and the blanks after it, in `s`.
pub open spec fn after_op(s: Seq<char>) -> Seq<char> {
    let t = s.skip(1);
    t.skip(blanks_len(t))
}

/// `s` starts with a number, an operator and a number, with blanks allowed
/// around the operator, and both numbers fit in an i32.
pub open spec fn starts_with_expr(s: Seq<char>) -> bool {
    &&& starts_with_number(s)
    &&& after_number(s).len() > 0
    &&& is_op(after_number(s)[0])
    &&& starts_with_number(after_op(after_number(s)))
}

impl Number {
    /// Reads the number literal at the front of `s`.
    pub fn new(s: &str) -> (r: (&str, Number))
        requires
            starts_with_number(s@),
        ensures
            r.0@ == s@.skip(digits_len(s@)),
            r.1 == leading_number(s@),
    {
        let (rest, number) = extract_digits(s);
        proof {
            lemma_prefix_chars(s@, |c: char| is_digit(c));
            assert forall|i: int| 0 <= i < number@.len() implies is_digit(#[trigger] number@[i]) by {
                assert(number@[i] == s@[i]);
            }
        }
        (rest, Number(parse_i32(number).unwrap()))
    }
}

impl Op {
    /// Reads the operator at the front of `s`.
    pub fn new(s: &str) -> (r: (&str, Op))
        requires
            s@.len() > 0,
            is_op(s@[0]),
        ensures
            r.0@ == s@.skip(1),
            r.1 == op_of(s@[0]),
    {
        let (s, op) = extract_op(s);
        let c = op.get_char(0);
        (
            s,
            if c == '+' {
                Op::Add
            } else if c == '-' {
                Op::Sub
            } else if c == '*' {
                Op::Mul
            } else {
                Op::Div
            },
        )
    }
}

impl Expr {
    /// Reads `number op number` at the front of `s`, as `new` does, where `s`
    /// starts with such an expression; `None` where it does not.
    pub fn parse(s: &str) -> (r: Option<(&str, Expr)>)
        ensures
            r is Some <==> starts_with_expr(s@),
            r is Some ==> r->Some_0.0@ == after_op(after_number(s@)).skip(
                digits_len(after_op(after_number(s@))),
            ),
            r is Some ==> r->Some_0.1 == (Expr {
                lhs: leading_number(s@),
                rhs: leading_number(after_op(after_number(s@))),
                op: op_of(after_number(s@)[0]),
            }),
    {
        if !starts_with_number_exec(s) {
            return None;
        }
        let (rest, _) = extract_digits(s);
        let (rest, _) = extract_whitespace(rest);
        if rest.unicode_len() == 0 {
            return None;
        }
        let c = rest.get_char(0);
        if !(c == '+' || c == '-' || c == '*' || c == '/') {
            return None;
        }
        let (rest, _) = extract_op(rest);
        let (rest, _) = extract_whitespace(rest);
        if !starts_with_number_exec(rest) {
            return None;
        }
        Some(Expr::new(s))
    }

    /// Reads `number op number` at the front of `s`, with blanks allowed
    /// around the operator.
    pub fn new(s: &str) -> (r: (&str, Expr))
        requires
            starts_with_expr(s@),
        ensures
            r.0@ == after_op(after_number(s@)).skip(digits_len(after_op(after_number(s@)))),
            r.1 == (Expr {
                lhs: leading_number(s@),
                rhs: leading_number(after_op(after_number(s@))),
                op: op_of(after_number(s@)[0]),
            }),
    {
        let (s, lhs) = Number::new(s);
        let (s, _) = extract_whitespace(s);

        let (s, op) = Op::new(s);
        let (s, _) = extract_whitespace(s);

        let (s, rhs) = Number::new(s);

        (s, Expr { lhs, rhs, op })
    }
}

/// Tells whether `s` starts with a number literal that fits in an i32.
fn starts_with_number_exec(s: &str) -> (b: bool)
    ensures
        b == starts_with_number(s@),
{
    let (_, number) = extract_digits(s);
    proof {
        lemma_prefix_chars(s@, |c: char| is_digit(c));
    }
    if number.unicode_len() == 0 {
        return false;
    }
    proof {
        assert forall|i: int| 0 <= i < number@.len() implies is_digit(#[trigger] number@[i]) by {
            assert(number@[i] == s@[i]);
        }
    }
    parse_i32(number).is_some()
}

/// Splits off the leading ASCII digits, possibly none.
pub fn extract_digits(s: &str) -> (r: (&str, &str))
    ensures
        longest_split(s@, r.0@, r.1@, |c: char| is_digit(c)),
{
    let r = take_while(digit, s);
    proof {
        lemma_longest_split(s@, r.0@, r.1@, |c: char| is_digit(c));
    }
    r
}

/// Splits off the leading whitespace.
pub fn extract_whitespace(s: &str) -> (r: (&str, &str))
    ensures
        longest_split(s@, r.0@, r.1@, |c: char| white_space(c)),
{
    let r = take_while(char_is_whitespace, s);
    proof {
        lemma_longest_split(s@, r.0@, r.1@, |c: char| white_space(c));
    }
    r
}

/// Splits off the operator character at the front of `s`.
pub fn extract_op(s: &str) -> (r: (&str, &str))
    requires
        s@.len() > 0,
        is_op(s@[0]),
    ensures
        r.0@ == s@.skip(1),
        r.1@ == s@.take(1),
{
    let len = s.unicode_len();
    (s.substring_char(1, len), s.substring_char(0, 1))
}

} // verus!
