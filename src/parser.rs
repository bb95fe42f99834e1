//! A precedence-climbing parser: from the text of an expression to its syntax tree.
use vstd::prelude::*;

use crate::ast::{Expr, Node};
use crate::token::{describe, prec_of, Lexeme, OperPrec, Token};
use crate::tokenizer::{is_digit, is_numeral_char, numeral_end, scan, Tokenizer};

verus! {

/// Why an expression could not be parsed; each kind carries a message.
#[derive(Debug)]
pub enum ParseError {
    UnableToParse(String),
    InvalidOperator(String),
    InvalidNumber(String),
}

/// The mathematical value of a `ParseError`.
pub enum Failure {
    UnableToParse(Seq<char>),
    InvalidOperator(Seq<char>),
    InvalidNumber(Seq<char>),
}

impl View for ParseError {
    type V = Failure;

    open spec fn view(&self) -> Failure {
        match self {
            ParseError::UnableToParse(m) => Failure::UnableToParse(m@),
            ParseError::InvalidOperator(m) => Failure::InvalidOperator(m@),
            ParseError::InvalidNumber(m) => Failure::InvalidNumber(m@),
        }
    }
}

/// The text of a failure as it is shown to a reader.
pub open spec fn failure_text(f: Failure) -> Seq<char> {
    match f {
        Failure::UnableToParse(m) => "Error unable to parse "@ + m,
        Failure::InvalidOperator(m) => "Error invalid operator "@ + m,
        Failure::InvalidNumber(m) => "Error parse number "@ + m,
    }
}

impl ParseError {
    /// The text of this error as it is shown to a reader.
    pub fn to_string(&self) -> (r: String)
        ensures
            r@ == failure_text(self@),
    {
        match self {
            ParseError::UnableToParse(m) => String::from_str("Error unable to parse ").concat(
                m.as_str(),
            ),
            ParseError::InvalidOperator(m) => String::from_str("Error invalid operator ").concat(
                m.as_str(),
            ),
            ParseError::InvalidNumber(m) => String::from_str("Error parse number ").concat(
                m.as_str(),
            ),
        }
    }
}

/// The failure of a pull that found no lexeme.
pub open spec fn invalid_character() -> Failure {
    Failure::InvalidOperator("Invalid character"@)
}

/// The failure where no operand can start.
pub open spec fn unable_to_parse() -> Failure {
    Failure::UnableToParse("Unable to parse"@)
}

/// The failure of a numeral `text` that does not read as a number; the message quotes it.
pub open spec fn invalid_number(text: Seq<char>) -> Failure {
    Failure::InvalidNumber("invalid float literal: "@ + text)
}

/// The failure where `expected` was due and `got` came.
pub open spec fn unexpected(expected: Lexeme, got: Lexeme) -> Failure {
    Failure::InvalidOperator("Expected "@ + describe(expected) + ", got "@ + describe(got))
}

/// The failure where an operator was due and `got` came.
pub open spec fn not_an_operator(got: Lexeme) -> Failure {
    Failure::InvalidOperator("Please enter valid operator "@ + describe(got))
}

/// The number of decimal digits in `t`.
pub open spec fn count_digits(t: Seq<char>) -> nat
    decreases t.len(),
{
    if t.len() == 0 {
        0
    } else {
        count_digits(t.drop_last()) + if is_digit(t.last()) {
            1nat
        } else {
            0nat
        }
    }
}

/// The number of decimal points in `t`.
pub open spec fn count_points(t: Seq<char>) -> nat
    decreases t.len(),
{
    if t.len() == 0 {
        0
    } else {
        count_points(t.drop_last()) + if t.last() == '.' {
            1nat
        } else {
            0nat
        }
    }
}

/// A decimal numeral that reads as a number: digits and at most one decimal point, with at
/// least one digit.
pub open spec fn is_well_formed_numeral(t: Seq<char>) -> bool {
    &&& forall|i: int| 0 <= i < t.len() ==> is_numeral_char(#[trigger] t[i])
    &&& count_digits(t) >= 1
    &&& count_points(t) <= 1
}

/// Where the parser stands: the position of its tokenizer, and the lexeme of lookahead.
pub struct Cursor {
    pub pos: int,
    pub cur: Lexeme,
}

/// What is left to read from cursor `c` on `s`: the characters after it, and one more while
/// the lookahead is not `EOF`. Consuming a lexeme other than `EOF` makes it smaller.
pub open spec fn measure(s: Seq<char>, c: Cursor) -> nat {
    (if c.pos < s.len() {
        (s.len() - c.pos) as nat
    } else {
        0nat
    }) + (if c.cur is EOF {
        0nat
    } else {
        1nat
    })
}

/// The cursor after pulling the next lexeme at `pos`.
pub open spec fn pull(s: Seq<char>, pos: int) -> Result<Cursor, Failure> {
    match scan(s, pos).0 {
        Some(t) => Ok(Cursor { pos: scan(s, pos).1, cur: t }),
        None => Err(invalid_character()),
    }
}

/// The parse of text `s`: its first lexeme is pulled, then the whole rest must be one
/// expression.
pub open spec fn parse_text(s: Seq<char>) -> Result<Expr, Failure> {
    match pull(s, 0) {
        Err(f) => Err(f),
        Ok(c) => match parse_whole(s, c) {
            Err(f) => Err(f),
            Ok((e, _)) => Ok(e),
        },
    }
}

/// An expression read at the lowest level from `c`, after which the text must be at its end:
/// any lexeme left over (an unmatched `)`, or what follows it) is a failure.
pub open spec fn parse_whole(s: Seq<char>, c: Cursor) -> Result<(Expr, Cursor), Failure> {
    match parse_at(s, c, OperPrec::DefaultZero) {
        Err(f) => Err(f),
        Ok((e, c1)) => if c1.cur is EOF {
            Ok((e, c1))
        } else {
            Err(unexpected(Lexeme::EOF, c1.cur))
        },
    }
}

/// An operand, then every operator that binds more tightly than `prec`, each with its right
/// operand read at the operator's own level.
///
/// The parse functions recur only where `measure` shrinks, which makes them total. From any
/// cursor within the text the comparison holds (`parse_laws::lemma_at_shrinks`), so the `unable_to_parse`
/// branches beside them are never taken.
pub open spec fn parse_at(s: Seq<char>, c: Cursor, prec: OperPrec) -> Result<(Expr, Cursor), Failure>
    decreases measure(s, c), 3nat,
{
    match parse_primary(s, c) {
        Err(f) => Err(f),
        Ok((left, c1)) => if measure(s, c1) <= measure(s, c) {
            parse_rest(s, c1, prec, left)
        } else {
            Err(unable_to_parse())
        },
    }
}

/// The operators after `left` that bind more tightly than `prec`, grouped to the left.
pub open spec fn parse_rest(s: Seq<char>, c: Cursor, prec: OperPrec, left: Expr) -> Result<(Expr, Cursor), Failure>
    decreases measure(s, c), 2nat,
{
    if prec.rank() < prec_of(c.cur).rank() && !(c.cur is EOF) {
        match parse_binary(s, c, left) {
            Err(f) => Err(f),
            Ok((e, c2)) => if measure(s, c2) < measure(s, c) {
                parse_rest(s, c2, prec, e)
            } else {
                Err(unable_to_parse())
            },
        }
    } else {
        Ok((left, c))
    }
}

/// The node of binary operator `op` over `left` and `right`.
pub open spec fn combine(op: Lexeme, left: Expr, right: Expr) -> Expr {
    match op {
        Lexeme::Add => Expr::Add(Box::new(left), Box::new(right)),
        Lexeme::Subtract => Expr::Subtract(Box::new(left), Box::new(right)),
        Lexeme::Multiply => Expr::Multiply(Box::new(left), Box::new(right)),
        Lexeme::Divide => Expr::Divide(Box::new(left), Box::new(right)),
        _ => Expr::Caret(Box::new(left), Box::new(right)),
    }
}

/// A binary operator.
pub open spec fn is_binary(t: Lexeme) -> bool {
    t is Add || t is Subtract || t is Multiply || t is Divide || t is Caret
}

/// The operator at `c` applied to `left` and to the operand after it.
pub open spec fn parse_binary(s: Seq<char>, c: Cursor, left: Expr) -> Result<(Expr, Cursor), Failure>
    decreases measure(s, c), 1nat,
{
    if is_binary(c.cur) {
        match parse_operand(s, c, prec_of(c.cur)) {
            Err(f) => Err(f),
            Ok((right, c2)) => Ok((combine(c.cur, left, right), c2)),
        }
    } else {
        Err(not_an_operator(c.cur))
    }
}

/// Past the lexeme at `c`, an expression read at level `prec`.
pub open spec fn parse_operand(s: Seq<char>, c: Cursor, prec: OperPrec) -> Result<(Expr, Cursor), Failure>
    decreases measure(s, c), 0nat,
{
    match pull(s, c.pos) {
        Err(f) => Err(f),
        Ok(c1) => if measure(s, c1) < measure(s, c) {
            parse_at(s, c1, prec)
        } else {
            Err(unable_to_parse())
        },
    }
}

/// One operand: a negated operand, a numeral, or a parenthesized expression; two
/// parenthesized groups in a row are multiplied.
pub open spec fn parse_primary(s: Seq<char>, c: Cursor) -> Result<(Expr, Cursor), Failure>
    decreases measure(s, c), 2nat,
{
    match c.cur {
        Lexeme::Subtract => match parse_operand(s, c, OperPrec::Negative) {
            Err(f) => Err(f),
            Ok((e, c1)) => Ok((Expr::Negative(Box::new(e)), c1)),
        },
        Lexeme::Num(text) => match pull(s, c.pos) {
            Err(f) => Err(f),
            Ok(c1) => if is_well_formed_numeral(text) {
                Ok((Expr::Number(text), c1))
            } else {
                Err(invalid_number(text))
            },
        },
        Lexeme::LeftParen => match parse_operand(s, c, OperPrec::DefaultZero) {
            Err(f) => Err(f),
            Ok((inner, c2)) => if c2.cur is RightParen {
                match pull(s, c2.pos) {
                    Err(f) => Err(f),
                    Ok(c3) => if !(c3.cur is LeftParen) {
                        Ok((inner, c3))
                    } else if measure(s, c3) < measure(s, c) {
                        match parse_at(s, c3, OperPrec::MulDiv) {
                            Err(f) => Err(f),
                            Ok((right, c4)) => Ok(
                                (Expr::Multiply(Box::new(inner), Box::new(right)), c4),
                            ),
                        }
                    } else {
                        Err(unable_to_parse())
                    },
                }
            } else {
                Err(unexpected(Lexeme::RightParen, c2.cur))
            },
        },
        _ => Err(unable_to_parse()),
    }
}

/// `r`, with the parser left at `after`, is the outcome `o` of a parse.
pub open spec fn agrees(r: Result<Node, ParseError>, after: Cursor, o: Result<(Expr, Cursor), Failure>) -> bool {
    match (r, o) {
        (Ok(n), Ok((e, c))) => n@ == e && after == c,
        (Err(x), Err(f)) => x@ == f,
        _ => false,
    }
}

/// `r`, with the parser left at `after`, is the outcome `o` of a pull.
pub open spec fn moved_as(r: Result<(), ParseError>, after: Cursor, o: Result<Cursor, Failure>) -> bool {
    match (r, o) {
        (Ok(_), Ok(c)) => after == c,
        (Err(x), Err(f)) => x@ == f,
        _ => false,
    }
}

pub(crate) proof fn lemma_numeral_end(s: Seq<char>, i: int)
    requires
        0 <= i <= s.len(),
    ensures
        i <= numeral_end(s, i) <= s.len(),
        numeral_end(s, i) < s.len() ==> !is_numeral_char(s[numeral_end(s, i)]),
        numeral_end(s, i) > i ==> is_numeral_char(s[numeral_end(s, i) - 1]),
        forall|j: int| i <= j < numeral_end(s, i) ==> is_numeral_char(#[trigger] s[j]),
    decreases s.len() - i,
{
    if i < s.len() && is_numeral_char(s[i]) {
        lemma_numeral_end(s, i + 1);
    }
}

/// A pull that finds a lexeme never moves back nor past the end, and consuming a lexeme other
/// than `EOF` leaves less to read.
pub(crate) proof fn lemma_pull_shrinks(s: Seq<char>, c: Cursor)
    requires
        0 <= c.pos <= s.len(),
        pull(s, c.pos) is Ok,
    ensures
        0 <= pull(s, c.pos)->Ok_0.pos <= s.len(),
        !(c.cur is EOF) ==> measure(s, pull(s, c.pos)->Ok_0) < measure(s, c),
{
    if c.pos < s.len() && is_numeral_char(s[c.pos]) {
        lemma_numeral_end(s, c.pos + 1);
    }
}

/// A parser over the text of one expression.
pub struct Parser<'a> {
    tokenizer: Tokenizer<'a>,
    current_token: Token,
}

/// `r` is what starting a parser on `s` gives.
pub open spec fn starts_as<'a>(r: Result<Parser<'a>, ParseError>, s: Seq<char>) -> bool {
    match (r, pull(s, 0)) {
        (Ok(p), Ok(c)) => p.wf() && p.source() == s && p.cursor() == c,
        (Err(x), Err(f)) => x@ == f,
        _ => false,
    }
}

impl<'a> Parser<'a> {
    /// The text being parsed.
    pub closed spec fn source(&self) -> Seq<char> {
        self.tokenizer.source()
    }

    /// Where the parser stands.
    pub closed spec fn cursor(&self) -> Cursor {
        Cursor { pos: self.tokenizer.position(), cur: self.current_token@ }
    }

    pub closed spec fn wf(&self) -> bool {
        &&& self.tokenizer.wf()
        &&& 0 <= self.tokenizer.position() <= self.tokenizer.source().len()
    }

    /// A parser on `expr`, with its first lexeme pulled.
    pub fn new(expr: &'a str) -> (r: Result<Parser<'a>, ParseError>)
        ensures
            starts_as(r, expr@),
    {
        let mut lexer = Tokenizer::new(expr);
        match lexer.next() {
            Some(cur_token) => Ok(Parser { tokenizer: lexer, current_token: cur_token }),
            None => Err(ParseError::InvalidOperator(String::from_str("Invalid character"))),
        }
    }

    /// The syntax tree of the expression, which must reach to the end of the text.
    pub fn parse(&mut self) -> (r: Result<Node, ParseError>)
        requires
            old(self).wf(),
        ensures
            final(self).wf(),
            final(self).source() == old(self).source(),
            agrees(r, final(self).cursor(), parse_whole(old(self).source(), old(self).cursor())),
    {
        let ast = match self.generate_ast(OperPrec::DefaultZero) {
            Ok(n) => n,
            Err(e) => return Err(e),
        };
        if matches!(self.current_token, Token::EOF) {
            Ok(ast)
        } else {
            Err(unexpected_error(&Token::EOF, &self.current_token))
        }
    }

    fn get_next_token(&mut self) -> (r: Result<(), ParseError>)
        requires
            old(self).wf(),
        ensures
            final(self).wf(),
            final(self).source() == old(self).source(),
            moved_as(r, final(self).cursor(), pull(old(self).source(), old(self).cursor().pos)),
            r is Err ==> final(self).cursor().cur == old(self).cursor().cur,
            r is Ok && !(old(self).cursor().cur is EOF) ==> measure(old(self).source(), final(self).cursor())
                < measure(old(self).source(), old(self).cursor()),
    {
        proof {
            if pull(self.source(), self.cursor().pos) is Ok {
                lemma_pull_shrinks(self.source(), self.cursor());
            }
        }
        match self.tokenizer.next() {
            Some(t) => {
                self.current_token = t;
                Ok(())
            },
            None => Err(ParseError::InvalidOperator(String::from_str("Invalid character"))),
        }
    }

    fn generate_ast(&mut self, oper_prec: OperPrec) -> (r: Result<Node, ParseError>)
        requires
            old(self).wf(),
        ensures
            final(self).wf(),
            final(self).source() == old(self).source(),
            agrees(r, final(self).cursor(), parse_at(old(self).source(), old(self).cursor(), oper_prec)),
            r is Ok ==> measure(old(self).source(), final(self).cursor()) <= measure(old(self).source(), old(self).cursor()),
        decreases measure(old(self).source(), old(self).cursor()), 3nat,
    {
        let ghost s = self.source();
        let ghost c0 = self.cursor();
        let mut left_expr = match self.parse_number() {
            Ok(n) => n,
            Err(e) => return Err(e),
        };
        while oper_prec.is_below(&self.current_token.get_oper_prec()) && !matches!(self.current_token, Token::EOF)
            invariant
                self.wf(),
                s == old(self).source(),
                c0 == old(self).cursor(),
                self.source() == s,
                measure(s, self.cursor()) <= measure(s, c0),
                parse_at(s, c0, oper_prec) == parse_rest(s, self.cursor(), oper_prec, left_expr@),
            decreases measure(s, self.cursor()),
        {
            left_expr = match self.convert_token_to_node(left_expr) {
                Ok(n) => n,
                Err(e) => return Err(e),
            };
        }
        Ok(left_expr)
    }

    fn operand(&mut self, oper_prec: OperPrec) -> (r: Result<Node, ParseError>)
        requires
            old(self).wf(),
            !(old(self).cursor().cur is EOF),
        ensures
            final(self).wf(),
            final(self).source() == old(self).source(),
            agrees(r, final(self).cursor(), parse_operand(old(self).source(), old(self).cursor(), oper_prec)),
            r is Ok ==> measure(old(self).source(), final(self).cursor()) < measure(old(self).source(), old(self).cursor()),
        decreases measure(old(self).source(), old(self).cursor()), 0nat,
    {
        match self.get_next_token() {
            Ok(()) => {},
            Err(e) => return Err(e),
        }
        self.generate_ast(oper_prec)
    }

    fn parse_number(&mut self) -> (r: Result<Node, ParseError>)
        requires
            old(self).wf(),
        ensures
            final(self).wf(),
            final(self).source() == old(self).source(),
            agrees(r, final(self).cursor(), parse_primary(old(self).source(), old(self).cursor())),
            !(old(self).cursor().cur is Subtract || old(self).cursor().cur is Num
                || old(self).cursor().cur is LeftParen) ==> final(self).cursor() == old(self).cursor(),
            r is Ok ==> measure(old(self).source(), final(self).cursor()) < measure(old(self).source(), old(self).cursor()),
        decreases measure(old(self).source(), old(self).cursor()), 2nat,
    {
        match &self.current_token {
            Token::Subtract => match self.operand(OperPrec::Negative) {
                Ok(e) => Ok(Node::Negative(Box::new(e))),
                Err(e) => Err(e),
            },
            Token::Num(text) => {
                let text = text.clone();
                match self.get_next_token() {
                    Ok(()) => {},
                    Err(e) => return Err(e),
                }
                if is_valid_numeral(&text) {
                    Ok(Node::Number(text))
                } else {
                    Err(
                        ParseError::InvalidNumber(
                            String::from_str("invalid float literal: ").concat(text.as_str()),
                        ),
                    )
                }
            },
            Token::LeftParen => {
                let expr = match self.operand(OperPrec::DefaultZero) {
                    Ok(e) => e,
                    Err(e) => return Err(e),
                };
                match self.check_paren(Token::RightParen) {
                    Ok(()) => {},
                    Err(e) => return Err(e),
                }
                if matches!(self.current_token, Token::LeftParen) {
                    let right = match self.generate_ast(OperPrec::MulDiv) {
                        Ok(e) => e,
                        Err(e) => return Err(e),
                    };
                    return Ok(Node::Multiply(Box::new(expr), Box::new(right)));
                }
                Ok(expr)
            },
            _ => Err(ParseError::UnableToParse(String::from_str("Unable to parse"))),
        }
    }

    fn check_paren(&mut self, expected: Token) -> (r: Result<(), ParseError>)
        requires
            old(self).wf(),
        ensures
            final(self).wf(),
            final(self).source() == old(self).source(),
            old(self).cursor().cur == expected@ ==> moved_as(r, final(self).cursor(), pull(old(self).source(), old(self).cursor().pos)),
            old(self).cursor().cur != expected@ ==> (match r {
                Err(x) => x@ == unexpected(expected@, old(self).cursor().cur),
                Ok(_) => false,
            }),
            old(self).cursor().cur != expected@ ==> final(self).cursor() == old(self).cursor(),
            r is Ok && !(expected@ is EOF) ==> measure(old(self).source(), final(self).cursor())
                < measure(old(self).source(), old(self).cursor()),
    {
        if expected == self.current_token {
            self.get_next_token()
        } else {
            Err(unexpected_error(&expected, &self.current_token))
        }
    }

    fn convert_token_to_node(&mut self, left_expr: Node) -> (r: Result<Node, ParseError>)
        requires
            old(self).wf(),
        ensures
            final(self).wf(),
            final(self).source() == old(self).source(),
            agrees(r, final(self).cursor(), parse_binary(old(self).source(), old(self).cursor(), left_expr@)),
            !is_binary(old(self).cursor().cur) ==> final(self).cursor() == old(self).cursor(),
            r is Ok ==> measure(old(self).source(), final(self).cursor()) < measure(old(self).source(), old(self).cursor()),
        decreases measure(old(self).source(), old(self).cursor()), 1nat,
    {
        match self.current_token {
            Token::Add => match self.operand(OperPrec::AddSub) {
                Ok(right) => Ok(Node::Add(Box::new(left_expr), Box::new(right))),
                Err(e) => Err(e),
            },
            Token::Subtract => match self.operand(OperPrec::AddSub) {
                Ok(right) => Ok(Node::Subtract(Box::new(left_expr), Box::new(right))),
                Err(e) => Err(e),
            },
            Token::Multiply => match self.operand(OperPrec::MulDiv) {
                Ok(right) => Ok(Node::Multiply(Box::new(left_expr), Box::new(right))),
                Err(e) => Err(e),
            },
            Token::Divide => match self.operand(OperPrec::MulDiv) {
                Ok(right) => Ok(Node::Divide(Box::new(left_expr), Box::new(right))),
                Err(e) => Err(e),
            },
            Token::Caret => match self.operand(OperPrec::Power) {
                Ok(right) => Ok(Node::Caret(Box::new(left_expr), Box::new(right))),
                Err(e) => Err(e),
            },
            _ => Err(ParseError::InvalidOperator(String::from_str("Please enter valid operator ").concat(
                self.current_token.describe().as_str(),
            ))),
        }
    }
}

/// The error where `expected` was due and `got` came.
fn unexpected_error(expected: &Token, got: &Token) -> (r: ParseError)
    ensures
        r@ == unexpected(expected@, got@),
{
    ParseError::InvalidOperator(String::from_str("Expected ").concat(expected.describe().as_str()).concat(
        ", got ",
    ).concat(got.describe().as_str()))
}

fn is_digit_exec(c: char) -> (r: bool)
    ensures
        r == is_digit(c),
{
    '0' <= c && c <= '9'
}

/// Whether `text` is a numeral that reads as a number.
fn is_valid_numeral(text: &String) -> (r: bool)
    ensures
        r == is_well_formed_numeral(text@),
{
    let s = text.as_str();
    let n = s.unicode_len();
    let mut digits: usize = 0;
    let mut points: usize = 0;
    let mut all_numeral = true;
    let mut i: usize = 0;
    while i < n
        invariant
            n == s@.len(),
            s@ == text@,
            i <= n,
            digits + points <= i,
            digits == count_digits(s@.take(i as int)),
            points == count_points(s@.take(i as int)),
            all_numeral == (forall|j: int| 0 <= j < i ==> is_numeral_char(#[trigger] s@[j])),
        decreases n - i,
    {
        let c = s.get_char(i);
        assert(s@.take(i + 1).drop_last() == s@.take(i as int));
        if is_digit_exec(c) {
            digits = digits + 1;
        } else if c == '.' {
            points = points + 1;
        } else {
            all_numeral = false;
        }
        i = i + 1;
    }
    assert(s@.take(n as int) == s@);
    all_numeral && digits >= 1 && points <= 1
}

} // verus!
