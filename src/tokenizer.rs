//! A lazy tokenizer: each pull reads the next lexeme of the expression.
use vstd::prelude::*;

use crate::token::{Lexeme, Token};

verus! {

/// An ASCII decimal digit.
pub open spec fn is_digit(c: char) -> bool {
    '0' <= c && c <= '9'
}

/// A character that can stand in a numeral: a digit or the decimal point.
pub open spec fn is_numeral_char(c: char) -> bool {
    is_digit(c) || c == '.'
}

/// The first position at or after `i` that does not continue the run of numeral characters.
pub open spec fn numeral_end(s: Seq<char>, i: int) -> int
    decreases s.len() - i,
{
    if 0 <= i < s.len() && is_numeral_char(s[i]) {
        numeral_end(s, i + 1)
    } else {
        i
    }
}

/// The lexeme of a one-character operator or parenthesis; `None` for any other character.
pub open spec fn symbol_lexeme(c: char) -> Option<Lexeme> {
    if c == '+' {
        Some(Lexeme::Add)
    } else if c == '-' {
        Some(Lexeme::Subtract)
    } else if c == '*' {
        Some(Lexeme::Multiply)
    } else if c == '/' {
        Some(Lexeme::Divide)
    } else if c == '^' {
        Some(Lexeme::Caret)
    } else if c == '(' {
        Some(Lexeme::LeftParen)
    } else if c == ')' {
        Some(Lexeme::RightParen)
    } else {
        None
    }
}

/// One pull at position `pos` of `s`: the lexeme read there, or `None` where the stream ends
/// abnormally (an unknown character, or a numeral directly followed by `(`), together with the
/// position after what was read. At the end of the text the pull gives `EOF` and stays put.
pub open spec fn scan(s: Seq<char>, pos: int) -> (Option<Lexeme>, int) {
    if pos >= s.len() {
        (Some(Lexeme::EOF), pos)
    } else if is_numeral_char(s[pos]) {
        let end = numeral_end(s, pos + 1);
        if end < s.len() && s[end] == '(' {
            (None, end)
        } else {
            (Some(Lexeme::Num(s.subrange(pos, end))), end)
        }
    } else {
        (symbol_lexeme(s[pos]), pos + 1)
    }
}

/// The view of a pulled token.
pub open spec fn pulled(r: Option<Token>) -> Option<Lexeme> {
    match r {
        Some(t) => Some(t@),
        None => None,
    }
}

/// A cursor over the characters of an expression.
pub struct Tokenizer<'a> {
    expr: &'a str,
    len: usize,
    pos: usize,
}

fn is_numeral_char_exec(c: char) -> (r: bool)
    ensures
        r == is_numeral_char(c),
{
    ('0' <= c && c <= '9') || c == '.'
}

impl<'a> Tokenizer<'a> {
    /// The characters of the expression.
    pub closed spec fn source(&self) -> Seq<char> {
        self.expr@
    }

    /// The position of the next character to read.
    pub closed spec fn position(&self) -> int {
        self.pos as int
    }

    pub closed spec fn wf(&self) -> bool {
        &&& self.len as nat == self.expr@.len()
        &&& self.pos <= self.len
    }

    /// A well-formed tokenizer stands within its text.
    pub proof fn lemma_position_bounds(&self)
        requires
            self.wf(),
        ensures
            0 <= self.position() <= self.source().len(),
    {
    }

    /// A tokenizer at the start of `new_expr`.
    pub fn new(new_expr: &'a str) -> (r: Self)
        ensures
            r.wf(),
            r.source() == new_expr@,
            r.position() == 0,
            0 <= r.position() <= r.source().len(),
    {
        Tokenizer { expr: new_expr, len: new_expr.unicode_len(), pos: 0 }
    }

    /// Reads the next lexeme, as `scan` describes.
    pub fn next(&mut self) -> (r: Option<Token>)
        requires
            old(self).wf(),
        ensures
            final(self).wf(),
            final(self).source() == old(self).source(),
            (pulled(r), final(self).position()) == scan(old(self).source(), old(self).position()),
            0 <= final(self).position() <= final(self).source().len(),
    {
        if self.pos >= self.len {
            return Some(Token::EOF);
        }
        let c = self.expr.get_char(self.pos);
        let start = self.pos;
        self.pos = self.pos + 1;
        if is_numeral_char_exec(c) {
            while self.pos < self.len && is_numeral_char_exec(self.expr.get_char(self.pos))
                invariant
                    self.wf(),
                    self.expr == old(self).expr,
                    start < self.pos,
                    numeral_end(self.expr@, start + 1) == numeral_end(self.expr@, self.pos as int),
                decreases self.len - self.pos,
            {
                self.pos = self.pos + 1;
            }
            if self.pos < self.len && self.expr.get_char(self.pos) == '(' {
                return None;
            }
            let text = self.expr.substring_char(start, self.pos).to_owned();
            Some(Token::Num(text))
        } else if c == '+' {
            Some(Token::Add)
        } else if c == '-' {
            Some(Token::Subtract)
        } else if c == '*' {
            Some(Token::Multiply)
        } else if c == '/' {
            Some(Token::Divide)
        } else if c == '^' {
            Some(Token::Caret)
        } else if c == '(' {
            Some(Token::LeftParen)
        } else if c == ')' {
            Some(Token::RightParen)
        } else {
            None
        }
    }
}

} // verus!
