use parsemath::token::{OperPrec, Token};
use parsemath::tokenizer::Tokenizer;

#[test]
fn test_positive_integer() {
    let mut tokenizer = Tokenizer::new("34");
    assert_eq!(tokenizer.next(), Some(Token::Num("34".to_owned())));
}

#[test]
fn test_decimal_number() {
    let mut tokenizer = Tokenizer::new("34.5");
    assert_eq!(tokenizer.next(), Some(Token::Num("34.5".to_owned())));
}

#[test]
fn test_invalid_char() {
    let mut tokenizer = Tokenizer::new("#$%");
    assert_eq!(tokenizer.next(), None);
}

#[test]
fn test_invalid_number() {
    let mut tokenizer = Tokenizer::new("3.1.1");
    assert_eq!(tokenizer.next(), Some(Token::Num("3.1.1".to_owned())));
}

#[test]
fn end_of_input_is_pulled_once_then_again() {
    let mut tokenizer = Tokenizer::new("7");
    assert_eq!(tokenizer.next(), Some(Token::Num("7".to_owned())));
    assert_eq!(tokenizer.next(), Some(Token::EOF));
    assert_eq!(tokenizer.next(), Some(Token::EOF));
}

#[test]
fn empty_text_gives_end_of_input() {
    let mut tokenizer = Tokenizer::new("");
    assert_eq!(tokenizer.next(), Some(Token::EOF));
}

#[test]
fn every_symbol_has_its_lexeme() {
    let mut tokenizer = Tokenizer::new("+-*/^()");
    assert_eq!(tokenizer.next(), Some(Token::Add));
    assert_eq!(tokenizer.next(), Some(Token::Subtract));
    assert_eq!(tokenizer.next(), Some(Token::Multiply));
    assert_eq!(tokenizer.next(), Some(Token::Divide));
    assert_eq!(tokenizer.next(), Some(Token::Caret));
    assert_eq!(tokenizer.next(), Some(Token::LeftParen));
    assert_eq!(tokenizer.next(), Some(Token::RightParen));
    assert_eq!(tokenizer.next(), Some(Token::EOF));
}

#[test]
fn numeral_may_start_with_a_point() {
    let mut tokenizer = Tokenizer::new(".5+1");
    assert_eq!(tokenizer.next(), Some(Token::Num(".5".to_owned())));
    assert_eq!(tokenizer.next(), Some(Token::Add));
    assert_eq!(tokenizer.next(), Some(Token::Num("1".to_owned())));
}

#[test]
fn numeral_before_open_paren_ends_the_stream() {
    let mut tokenizer = Tokenizer::new("2(3)");
    assert_eq!(tokenizer.next(), None);
    assert_eq!(tokenizer.next(), Some(Token::LeftParen));
}

#[test]
fn whitespace_is_not_a_lexeme() {
    let mut tokenizer = Tokenizer::new("1 +2");
    assert_eq!(tokenizer.next(), Some(Token::Num("1".to_owned())));
    assert_eq!(tokenizer.next(), None);
    assert_eq!(tokenizer.next(), Some(Token::Add));
}

#[test]
fn precedence_levels_of_lexemes() {
    assert_eq!(Token::Add.get_oper_prec(), OperPrec::AddSub);
    assert_eq!(Token::Subtract.get_oper_prec(), OperPrec::AddSub);
    assert_eq!(Token::Multiply.get_oper_prec(), OperPrec::MulDiv);
    assert_eq!(Token::Divide.get_oper_prec(), OperPrec::MulDiv);
    assert_eq!(Token::Caret.get_oper_prec(), OperPrec::Power);
    assert_eq!(Token::LeftParen.get_oper_prec(), OperPrec::DefaultZero);
    assert_eq!(Token::Num("1".to_owned()).get_oper_prec(), OperPrec::DefaultZero);
    assert_eq!(Token::EOF.get_oper_prec(), OperPrec::DefaultZero);
}

#[test]
fn precedence_levels_are_ordered() {
    assert!(OperPrec::DefaultZero.is_below(&OperPrec::AddSub));
    assert!(OperPrec::AddSub.is_below(&OperPrec::MulDiv));
    assert!(OperPrec::MulDiv.is_below(&OperPrec::Power));
    assert!(OperPrec::Power.is_below(&OperPrec::Negative));
    assert!(!OperPrec::MulDiv.is_below(&OperPrec::MulDiv));
    assert!(!OperPrec::Negative.is_below(&OperPrec::DefaultZero));
}

#[test]
fn lexemes_are_described_by_name() {
    assert_eq!(Token::RightParen.describe(), "RightParen");
    assert_eq!(Token::EOF.describe(), "EOF");
    assert_eq!(Token::Num("4.5".to_owned()).describe(), "Num(\"4.5\")");
}

#[test]
fn lexemes_compare_by_kind_and_text() {
    assert_eq!(Token::Num("1".to_owned()), Token::Num("1".to_owned()));
    assert_ne!(Token::Num("1".to_owned()), Token::Num("1.0".to_owned()));
    assert_ne!(Token::Add, Token::Subtract);
}
