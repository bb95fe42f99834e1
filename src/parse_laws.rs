//! What holds of every parse: it depends on the text alone, it never reads back, and a text
//! that parses is one whole expression, so texts with unbalanced parentheses or a missing
//! operand do not parse.
use vstd::prelude::*;

use crate::ast::{Expr, Node};
use crate::parser::{
    agrees, is_binary, lemma_numeral_end, lemma_pull_shrinks, measure, parse_at, parse_binary,
    parse_operand, parse_primary, parse_rest, parse_text, parse_whole, pull, starts_as,
    unable_to_parse, Cursor, Failure, ParseError, Parser,
};
use crate::token::{prec_of, Lexeme, OperPrec};
use crate::tokenizer::{is_numeral_char, numeral_end};

verus! {

/// From a cursor within the text, a parse stays within it and never leaves more to read.
pub proof fn lemma_at_shrinks(s: Seq<char>, c: Cursor, prec: OperPrec)
    requires
        0 <= c.pos <= s.len(),
    ensures
        parse_at(s, c, prec) is Ok ==> ({
            let after = parse_at(s, c, prec)->Ok_0.1;
            0 <= after.pos <= s.len() && measure(s, after) <= measure(s, c)
        }),
    decreases measure(s, c), 3nat,
{
    lemma_primary_shrinks(s, c);
    if let Ok((left, c1)) = parse_primary(s, c) {
        lemma_rest_shrinks(s, c1, prec, left);
    }
}

proof fn lemma_rest_shrinks(s: Seq<char>, c: Cursor, prec: OperPrec, left: Expr)
    requires
        0 <= c.pos <= s.len(),
    ensures
        parse_rest(s, c, prec, left) is Ok ==> ({
            let after = parse_rest(s, c, prec, left)->Ok_0.1;
            0 <= after.pos <= s.len() && measure(s, after) <= measure(s, c)
        }),
    decreases measure(s, c), 2nat,
{
    if prec.rank() < prec_of(c.cur).rank() && !(c.cur is EOF) {
        lemma_binary_shrinks(s, c, left);
        if let Ok((e, c2)) = parse_binary(s, c, left) {
            lemma_rest_shrinks(s, c2, prec, e);
        }
    }
}

proof fn lemma_binary_shrinks(s: Seq<char>, c: Cursor, left: Expr)
    requires
        0 <= c.pos <= s.len(),
    ensures
        parse_binary(s, c, left) is Ok ==> ({
            let after = parse_binary(s, c, left)->Ok_0.1;
            0 <= after.pos <= s.len() && measure(s, after) < measure(s, c)
        }),
    decreases measure(s, c), 1nat,
{
    if is_binary(c.cur) {
        lemma_operand_shrinks(s, c, prec_of(c.cur));
    }
}

proof fn lemma_operand_shrinks(s: Seq<char>, c: Cursor, prec: OperPrec)
    requires
        0 <= c.pos <= s.len(),
        !(c.cur is EOF),
    ensures
        parse_operand(s, c, prec) is Ok ==> ({
            let after = parse_operand(s, c, prec)->Ok_0.1;
            0 <= after.pos <= s.len() && measure(s, after) < measure(s, c)
        }),
    decreases measure(s, c), 0nat,
{
    if let Ok(c1) = pull(s, c.pos) {
        lemma_pull_shrinks(s, c);
        lemma_at_shrinks(s, c1, prec);
    }
}

proof fn lemma_primary_shrinks(s: Seq<char>, c: Cursor)
    requires
        0 <= c.pos <= s.len(),
    ensures
        parse_primary(s, c) is Ok ==> ({
            let after = parse_primary(s, c)->Ok_0.1;
            0 <= after.pos <= s.len() && measure(s, after) < measure(s, c)
        }),
    decreases measure(s, c), 2nat,
{
    match c.cur {
        Lexeme::Subtract => {
            lemma_operand_shrinks(s, c, OperPrec::Negative);
        },
        Lexeme::Num(_) => {
            if pull(s, c.pos) is Ok {
                lemma_pull_shrinks(s, c);
            }
        },
        Lexeme::LeftParen => {
            lemma_operand_shrinks(s, c, OperPrec::DefaultZero);
            if let Ok((_, c2)) = parse_operand(s, c, OperPrec::DefaultZero) {
                if c2.cur is RightParen && pull(s, c2.pos) is Ok {
                    lemma_pull_shrinks(s, c2);
                    let c3 = pull(s, c2.pos)->Ok_0;
                    if c3.cur is LeftParen {
                        lemma_at_shrinks(s, c3, OperPrec::MulDiv);
                    }
                }
            }
        },
        _ => {},
    }
}

/// Parsing depends on the text alone: two parsers started on the same text, each asked to
/// parse, give equal trees or equal failures.
pub proof fn lemma_parse_deterministic<'a, 'b>(
    s: Seq<char>,
    p1: Parser<'a>,
    r1: Result<Node, ParseError>,
    after1: Cursor,
    p2: Parser<'b>,
    r2: Result<Node, ParseError>,
    after2: Cursor,
)
    requires
        starts_as(Ok(p1), s),
        starts_as(Ok(p2), s),
        agrees(r1, after1, parse_whole(p1.source(), p1.cursor())),
        agrees(r2, after2, parse_whole(p2.source(), p2.cursor())),
    ensures
        r1 is Ok <==> r2 is Ok,
        r1 is Ok ==> r1->Ok_0@ == r2->Ok_0@,
        r1 is Err ==> r1->Err_0@ == r2->Err_0@,
{
}

/// The empty text has no operand: its parse fails.
pub proof fn lemma_empty_text_fails()
    ensures
        parse_text(Seq::<char>::empty()) == Err::<Expr, Failure>(unable_to_parse()),
{
    let s = Seq::<char>::empty();
    let c = Cursor { pos: 0, cur: Lexeme::EOF };
    assert(pull(s, 0) == Ok::<Cursor, Failure>(c));
    assert(parse_primary(s, c) == Err::<(Expr, Cursor), Failure>(unable_to_parse()));
}

/// What a parenthesis adds to the nesting depth: one for `(`, minus one for `)`.
pub open spec fn paren_delta(c: char) -> int {
    if c == '(' {
        1
    } else if c == ')' {
        -1
    } else {
        0
    }
}

/// The number of `(` less the number of `)` among the characters from `i` up to `j`.
pub open spec fn depth(s: Seq<char>, i: int, j: int) -> int
    decreases j - i,
{
    if j <= i {
        0
    } else {
        depth(s, i, j - 1) + paren_delta(s[j - 1])
    }
}

/// The number of `(` less the number of `)` in the whole text.
pub open spec fn paren_balance(s: Seq<char>) -> int {
    depth(s, 0, s.len() as int)
}

/// The number of characters a lexeme was read from.
pub open spec fn lexeme_len(t: Lexeme) -> int {
    match t {
        Lexeme::Num(text) => text.len() as int,
        Lexeme::EOF => 0,
        _ => 1,
    }
}

/// Where the lookahead lexeme of `c` starts in the text.
pub open spec fn start(c: Cursor) -> int {
    c.pos - lexeme_len(c.cur)
}

/// A cursor as pulls leave it: its lexeme is what the text holds just before its position.
pub open spec fn coherent(s: Seq<char>, c: Cursor) -> bool {
    &&& 0 <= start(c) <= c.pos <= s.len()
    &&& c.cur is EOF ==> c.pos == s.len()
    &&& c.cur is Num ==> {
        &&& start(c) < c.pos
        &&& forall|i: int| start(c) <= i < c.pos ==> is_numeral_char(#[trigger] s[i])
        &&& c.pos < s.len() ==> !is_numeral_char(s[c.pos]) && s[c.pos] != '('
    }
    &&& c.cur is LeftParen ==> s[c.pos - 1] == '('
    &&& c.cur is RightParen ==> s[c.pos - 1] == ')'
    &&& is_binary(c.cur) ==> paren_delta(s[c.pos - 1]) == 0
}

/// Where a parse may stop: at the end of the text only if its last character closes an
/// operand, a numeral or `)`.
pub open spec fn ends_well(s: Seq<char>, c: Cursor) -> bool {
    c.cur is EOF ==> s.len() > 0 && (is_numeral_char(s.last()) || s.last() == ')')
}

/// A parse from `c` that stopped at `after`: the characters between their lexemes balance.
pub open spec fn spans(s: Seq<char>, c: Cursor, after: Cursor) -> bool {
    &&& coherent(s, after)
    &&& start(c) <= start(after)
    &&& depth(s, start(c), start(after)) == 0
}

proof fn lemma_depth_split(s: Seq<char>, i: int, j: int, k: int)
    requires
        i <= j <= k,
    ensures
        depth(s, i, k) == depth(s, i, j) + depth(s, j, k),
    decreases k - j,
{
    if j < k {
        lemma_depth_split(s, i, j, k - 1);
    }
}

proof fn lemma_depth_numeral(s: Seq<char>, i: int, j: int)
    requires
        forall|x: int| i <= x < j ==> is_numeral_char(#[trigger] s[x]),
    ensures
        depth(s, i, j) == 0,
    decreases j - i,
{
    if i < j {
        assert(is_numeral_char(s[j - 1]));
        lemma_depth_numeral(s, i, j - 1);
    }
}

proof fn lemma_depth_one(s: Seq<char>, i: int)
    ensures
        depth(s, i, i + 1) == paren_delta(s[i]),
{
    assert(depth(s, i, i) == 0);
}

proof fn lemma_pull_coherent(s: Seq<char>, pos: int)
    requires
        0 <= pos <= s.len(),
        pull(s, pos) is Ok,
    ensures
        coherent(s, pull(s, pos)->Ok_0),
        start(pull(s, pos)->Ok_0) == pos,
{
    if pos < s.len() && is_numeral_char(s[pos]) {
        lemma_numeral_end(s, pos + 1);
        let end = numeral_end(s, pos + 1);
        assert forall|i: int| pos <= i < end implies is_numeral_char(#[trigger] s[i]) by {
            if i > pos {
                assert(is_numeral_char(s[i]));
            }
        }
    }
}

proof fn lemma_at_spans(s: Seq<char>, c: Cursor, prec: OperPrec)
    requires
        coherent(s, c),
    ensures
        parse_at(s, c, prec) is Ok ==> spans(s, c, parse_at(s, c, prec)->Ok_0.1) && ends_well(
            s,
            parse_at(s, c, prec)->Ok_0.1,
        ),
    decreases measure(s, c), 3nat,
{
    lemma_primary_spans(s, c);
    if let Ok((left, c1)) = parse_primary(s, c) {
        if measure(s, c1) <= measure(s, c) {
            lemma_rest_spans(s, c1, prec, left);
            if let Ok((_, c2)) = parse_rest(s, c1, prec, left) {
                lemma_depth_split(s, start(c), start(c1), start(c2));
            }
        }
    }
}

proof fn lemma_rest_spans(s: Seq<char>, c: Cursor, prec: OperPrec, left: Expr)
    requires
        coherent(s, c),
    ensures
        parse_rest(s, c, prec, left) is Ok ==> spans(s, c, parse_rest(s, c, prec, left)->Ok_0.1),
        parse_rest(s, c, prec, left) is Ok && ends_well(s, c) ==> ends_well(
            s,
            parse_rest(s, c, prec, left)->Ok_0.1,
        ),
    decreases measure(s, c), 2nat,
{
    if prec.rank() < prec_of(c.cur).rank() && !(c.cur is EOF) {
        lemma_binary_spans(s, c, left);
        if let Ok((e, c2)) = parse_binary(s, c, left) {
            if measure(s, c2) < measure(s, c) {
                lemma_rest_spans(s, c2, prec, e);
                if let Ok((_, c3)) = parse_rest(s, c2, prec, e) {
                    lemma_depth_split(s, start(c), start(c2), start(c3));
                }
            }
        }
    }
}

proof fn lemma_binary_spans(s: Seq<char>, c: Cursor, left: Expr)
    requires
        coherent(s, c),
    ensures
        parse_binary(s, c, left) is Ok ==> spans(s, c, parse_binary(s, c, left)->Ok_0.1) && ends_well(
            s,
            parse_binary(s, c, left)->Ok_0.1,
        ),
    decreases measure(s, c), 1nat,
{
    if is_binary(c.cur) {
        lemma_operand_spans(s, c, prec_of(c.cur));
        if let Ok((_, c2)) = parse_operand(s, c, prec_of(c.cur)) {
            lemma_depth_one(s, c.pos - 1);
            lemma_depth_split(s, start(c), c.pos, start(c2));
        }
    }
}

proof fn lemma_operand_spans(s: Seq<char>, c: Cursor, prec: OperPrec)
    requires
        coherent(s, c),
    ensures
        parse_operand(s, c, prec) is Ok ==> ({
            let after = parse_operand(s, c, prec)->Ok_0.1;
            &&& coherent(s, after)
            &&& c.pos <= start(after)
            &&& depth(s, c.pos, start(after)) == 0
            &&& ends_well(s, after)
        }),
    decreases measure(s, c), 0nat,
{
    if let Ok(c1) = pull(s, c.pos) {
        lemma_pull_coherent(s, c.pos);
        if measure(s, c1) < measure(s, c) {
            lemma_at_spans(s, c1, prec);
        }
    }
}

proof fn lemma_primary_spans(s: Seq<char>, c: Cursor)
    requires
        coherent(s, c),
    ensures
        parse_primary(s, c) is Ok ==> spans(s, c, parse_primary(s, c)->Ok_0.1) && ends_well(
            s,
            parse_primary(s, c)->Ok_0.1,
        ),
    decreases measure(s, c), 2nat,
{
    match c.cur {
        Lexeme::Subtract => {
            lemma_operand_spans(s, c, OperPrec::Negative);
            if let Ok((_, c1)) = parse_operand(s, c, OperPrec::Negative) {
                lemma_depth_one(s, c.pos - 1);
                lemma_depth_split(s, start(c), c.pos, start(c1));
            }
        },
        Lexeme::Num(_) => {
            if pull(s, c.pos) is Ok {
                lemma_pull_coherent(s, c.pos);
                lemma_depth_numeral(s, start(c), c.pos);
                assert(is_numeral_char(s[c.pos - 1]));
            }
        },
        Lexeme::LeftParen => {
            lemma_operand_spans(s, c, OperPrec::DefaultZero);
            if let Ok((_, c2)) = parse_operand(s, c, OperPrec::DefaultZero) {
                if c2.cur is RightParen && pull(s, c2.pos) is Ok {
                    let c3 = pull(s, c2.pos)->Ok_0;
                    lemma_pull_coherent(s, c2.pos);
                    lemma_depth_one(s, c.pos - 1);
                    lemma_depth_one(s, c2.pos - 1);
                    lemma_depth_split(s, start(c), c.pos, start(c2));
                    lemma_depth_split(s, start(c), start(c2), c2.pos);
                    if c3.cur is LeftParen && measure(s, c3) < measure(s, c) {
                        lemma_at_spans(s, c3, OperPrec::MulDiv);
                        if let Ok((_, c4)) = parse_at(s, c3, OperPrec::MulDiv) {
                            lemma_depth_split(s, start(c), start(c3), start(c4));
                        }
                    }
                }
            }
        },
        _ => {},
    }
}

/// A text parses only as a whole expression: its parentheses balance, and it ends in a
/// numeral or in `)`.
pub proof fn lemma_parsed_text_is_closed(s: Seq<char>)
    requires
        parse_text(s) is Ok,
    ensures
        paren_balance(s) == 0,
        s.len() > 0,
        is_numeral_char(s.last()) || s.last() == ')',
{
    let c = pull(s, 0)->Ok_0;
    lemma_pull_coherent(s, 0);
    lemma_at_spans(s, c, OperPrec::DefaultZero);
}

/// A text with more `(` than `)`, or more `)` than `(`, does not parse.
pub proof fn lemma_unbalanced_parens_fail(s: Seq<char>)
    requires
        paren_balance(s) != 0,
    ensures
        parse_text(s) is Err,
{
    if parse_text(s) is Ok {
        lemma_parsed_text_is_closed(s);
    }
}

/// A text that ends in an operator or in `(` does not parse: an operand is missing after its
/// last character.
pub proof fn lemma_dangling_operator_fails(s: Seq<char>)
    requires
        s.len() > 0,
        s.last() == '+' || s.last() == '-' || s.last() == '*' || s.last() == '/' || s.last() == '^'
            || s.last() == '(',
    ensures
        parse_text(s) is Err,
{
    if parse_text(s) is Ok {
        lemma_parsed_text_is_closed(s);
    }
}

} // verus!
