use parsemath::ast::Node;
use parsemath::ast::Node::{Add, Caret, Divide, Multiply, Negative, Number, Subtract};
use parsemath::parser::{ParseError, Parser};

fn num(text: &str) -> Box<Node> {
    Box::new(Number(text.to_owned()))
}

fn parse(text: &str) -> Result<Node, ParseError> {
    Parser::new(text)?.parse()
}

fn value(node: &Node) -> f64 {
    match node {
        Number(text) => text.parse::<f64>().unwrap(),
        Add(a, b) => value(a) + value(b),
        Subtract(a, b) => value(a) - value(b),
        Multiply(a, b) => value(a) * value(b),
        Divide(a, b) => value(a) / value(b),
        Caret(a, b) => value(a).powf(value(b)),
        Negative(a) => -value(a),
    }
}

fn message(text: &str) -> String {
    match parse(text) {
        Ok(node) => panic!("parsed to {:?}", node),
        Err(e) => e.to_string(),
    }
}

#[test]
fn test_addition() {
    let mut parser = Parser::new("1+2").unwrap();
    let expected = Add(num("1"), num("2"));
    assert_eq!(parser.parse().unwrap(), expected);
}

#[test]
fn test_expr1() {
    let ast = Parser::new("1+2-3").unwrap().parse().unwrap();
    assert_eq!(value(&ast), 0.0);
}

#[test]
fn test_expr2() {
    let ast = Parser::new("3+2-1*5/4").unwrap().parse().unwrap();
    assert_eq!(value(&ast), 3.75);
}

#[test]
fn same_level_operators_group_to_the_left() {
    let ast = parse("3+2-1*5/4").unwrap();
    let expected = Subtract(
        Box::new(Add(num("3"), num("2"))),
        Box::new(Divide(Box::new(Multiply(num("1"), num("5"))), num("4"))),
    );
    assert_eq!(ast, expected);
}

#[test]
fn adjacent_groups_are_multiplied() {
    let ast = parse("(2)(3)").unwrap();
    assert_eq!(ast, Multiply(num("2"), num("3")));
    assert_eq!(value(&ast), 6.0);
}

#[test]
fn power_binds_tighter_than_product() {
    let ast = parse("2*3^2").unwrap();
    assert_eq!(ast, Multiply(num("2"), Box::new(Caret(num("3"), num("2")))));
    assert_eq!(value(&ast), 18.0);
}

#[test]
fn negation_binds_tightest() {
    let ast = parse("-2^2").unwrap();
    assert_eq!(ast, Caret(Box::new(Negative(num("2"))), num("2")));
    assert_eq!(value(&ast), 4.0);
}

#[test]
fn parentheses_group_first() {
    let ast = parse("(1+2)*3").unwrap();
    assert_eq!(ast, Multiply(Box::new(Add(num("1"), num("2"))), num("3")));
    assert_eq!(value(&ast), 9.0);
}

#[test]
fn parsing_twice_gives_equal_trees() {
    let text = "-(1.5+2)*3/(4-1)^2";
    assert_eq!(parse(text).unwrap(), parse(text).unwrap());
}

#[test]
fn division_by_zero_is_infinite() {
    let ast = parse("1/0").unwrap();
    assert_eq!(value(&ast), f64::INFINITY);
    let negated = parse("-(1/0)").unwrap();
    assert_eq!(value(&negated), f64::NEG_INFINITY);
}

#[test]
fn empty_text_is_refused() {
    assert!(matches!(parse(""), Err(ParseError::UnableToParse(_))));
    assert_eq!(message(""), "Error unable to parse Unable to parse");
}

#[test]
fn trailing_operator_is_refused() {
    assert!(matches!(parse("1+"), Err(ParseError::UnableToParse(_))));
    assert!(matches!(parse("2*3^"), Err(ParseError::UnableToParse(_))));
}

#[test]
fn unclosed_paren_is_refused() {
    assert_eq!(message("(1+2"), "Error invalid operator Expected RightParen, got EOF");
    assert_eq!(message("(1"), "Error invalid operator Expected RightParen, got EOF");
}

#[test]
fn unknown_character_is_refused() {
    assert_eq!(message("#$%"), "Error invalid operator Invalid character");
    assert_eq!(message("1+a"), "Error invalid operator Invalid character");
    assert_eq!(message("2(3)"), "Error invalid operator Invalid character");
}

#[test]
fn malformed_numeral_is_refused() {
    assert_eq!(message("3.1.1"), "Error parse number invalid float literal: 3.1.1");
    assert_eq!(message("."), "Error parse number invalid float literal: .");
    assert!(matches!(parse("1+2.3.4"), Err(ParseError::InvalidNumber(_))));
}

#[test]
fn numerals_keep_their_text() {
    assert_eq!(parse("12.50").unwrap(), Number("12.50".to_owned()));
    assert_eq!(parse(".5").unwrap(), Number(".5".to_owned()));
    assert_eq!(parse("5.").unwrap(), Number("5.".to_owned()));
}

#[test]
fn unmatched_close_paren_is_refused() {
    assert_eq!(message("1+2)"), "Error invalid operator Expected EOF, got RightParen");
    assert_eq!(message("2)+"), "Error invalid operator Expected EOF, got RightParen");
    assert_eq!(message(")"), "Error unable to parse Unable to parse");
}

#[test]
fn lexeme_after_a_closed_group_is_refused() {
    assert_eq!(message("(2)3"), "Error invalid operator Expected EOF, got Num(\"3\")");
}

#[test]
fn balanced_nested_groups_parse() {
    let ast = parse("((1))-(2)").unwrap();
    assert_eq!(ast, Subtract(num("1"), num("2")));
    assert_eq!(value(&ast), -1.0);
}

#[test]
fn parsing_again_after_the_end_fails() {
    let mut parser = Parser::new("4").unwrap();
    assert_eq!(parser.parse().unwrap(), Number("4".to_owned()));
    assert!(matches!(parser.parse(), Err(ParseError::UnableToParse(_))));
}
