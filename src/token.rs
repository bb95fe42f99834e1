//! Lexemes of arithmetic expressions and the precedence levels of operators.
use vstd::prelude::*;

verus! {

/// A lexeme of an arithmetic expression. A numeral keeps its text as written.
#[derive(Debug, Clone)]
pub enum Token {
    Add,
    Subtract,
    Multiply,
    Divide,
    Caret,
    LeftParen,
    RightParen,
    Num(String),
    EOF,
}

/// The mathematical value of a `Token`: a numeral is its sequence of characters.
pub enum Lexeme {
    Add,
    Subtract,
    Multiply,
    Divide,
    Caret,
    LeftParen,
    RightParen,
    Num(Seq<char>),
    EOF,
}

impl View for Token {
    type V = Lexeme;

    open spec fn view(&self) -> Lexeme {
        match self {
            Token::Add => Lexeme::Add,
            Token::Subtract => Lexeme::Subtract,
            Token::Multiply => Lexeme::Multiply,
            Token::Divide => Lexeme::Divide,
            Token::Caret => Lexeme::Caret,
            Token::LeftParen => Lexeme::LeftParen,
            Token::RightParen => Lexeme::RightParen,
            Token::Num(text) => Lexeme::Num(text@),
            Token::EOF => Lexeme::EOF,
        }
    }
}

impl PartialEq for Token {
    fn eq(&self, other: &Token) -> (r: bool)
        ensures
            r == (self@ == other@),
    {
        match (self, other) {
            (Token::Add, Token::Add) => true,
            (Token::Subtract, Token::Subtract) => true,
            (Token::Multiply, Token::Multiply) => true,
            (Token::Divide, Token::Divide) => true,
            (Token::Caret, Token::Caret) => true,
            (Token::LeftParen, Token::LeftParen) => true,
            (Token::RightParen, Token::RightParen) => true,
            (Token::Num(a), Token::Num(b)) => String::eq(a, b),
            (Token::EOF, Token::EOF) => true,
            _ => false,
        }
    }
}

impl vstd::std_specs::cmp::PartialEqSpecImpl for Token {
    open spec fn obeys_eq_spec() -> bool {
        true
    }

    open spec fn eq_spec(&self, other: &Token) -> bool {
        self@ == other@
    }
}

/// Precedence levels of operators, from the loosest binding to the tightest.
#[derive(Debug, Clone, Copy, PartialEq, Eq, Structural)]
pub enum OperPrec {
    DefaultZero,
    AddSub,
    MulDiv,
    Power,
    Negative,
}

impl OperPrec {
    /// The position of the level in the order `DefaultZero < AddSub < MulDiv < Power < Negative`.
    pub open spec fn rank(self) -> nat {
        match self {
            OperPrec::DefaultZero => 0,
            OperPrec::AddSub => 1,
            OperPrec::MulDiv => 2,
            OperPrec::Power => 3,
            OperPrec::Negative => 4,
        }
    }

    /// Whether this level binds strictly less tightly than `other`.
    pub fn is_below(&self, other: &OperPrec) -> (r: bool)
        ensures
            r == (self.rank() < other.rank()),
    {
        self.level() < other.level()
    }

    fn level(&self) -> (r: u8)
        ensures
            r as nat == self.rank(),
    {
        match self {
            OperPrec::DefaultZero => 0,
            OperPrec::AddSub => 1,
            OperPrec::MulDiv => 2,
            OperPrec::Power => 3,
            OperPrec::Negative => 4,
        }
    }
}

/// The precedence level of a lexeme: the operators' own levels, `DefaultZero` for the rest.
pub open spec fn prec_of(t: Lexeme) -> OperPrec {
    match t {
        Lexeme::Add | Lexeme::Subtract => OperPrec::AddSub,
        Lexeme::Multiply | Lexeme::Divide => OperPrec::MulDiv,
        Lexeme::Caret => OperPrec::Power,
        _ => OperPrec::DefaultZero,
    }
}

/// How a lexeme is named in messages: its variant, and for a numeral its text in quotes.
pub open spec fn describe(t: Lexeme) -> Seq<char> {
    match t {
        Lexeme::Add => "Add"@,
        Lexeme::Subtract => "Subtract"@,
        Lexeme::Multiply => "Multiply"@,
        Lexeme::Divide => "Divide"@,
        Lexeme::Caret => "Caret"@,
        Lexeme::LeftParen => "LeftParen"@,
        Lexeme::RightParen => "RightParen"@,
        Lexeme::Num(text) => "Num(\""@ + text + "\")"@,
        Lexeme::EOF => "EOF"@,
    }
}

impl Token {
    /// The name of this lexeme in messages.
    pub fn describe(&self) -> (r: String)
        ensures
            r@ == describe(self@),
    {
        match self {
            Token::Add => String::from_str("Add"),
            Token::Subtract => String::from_str("Subtract"),
            Token::Multiply => String::from_str("Multiply"),
            Token::Divide => String::from_str("Divide"),
            Token::Caret => String::from_str("Caret"),
            Token::LeftParen => String::from_str("LeftParen"),
            Token::RightParen => String::from_str("RightParen"),
            Token::Num(text) => String::from_str("Num(\"").concat(text.as_str()).concat("\")"),
            Token::EOF => String::from_str("EOF"),
        }
    }

    /// The precedence level of this lexeme.
    pub fn get_oper_prec(&self) -> (r: OperPrec)
        ensures
            r == prec_of(self@),
    {
        match self {
            Token::Add | Token::Subtract => OperPrec::AddSub,
            Token::Multiply | Token::Divide => OperPrec::MulDiv,
            Token::Caret => OperPrec::Power,
            _ => OperPrec::DefaultZero,
        }
    }
}

} // verus!
