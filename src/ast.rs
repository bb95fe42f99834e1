//! The syntax tree of an arithmetic expression.
use vstd::prelude::*;

verus! {

/// A node of the syntax tree. Each operator owns its operands; a number keeps the text of
/// its literal, which is a well-formed decimal numeral.
#[derive(Debug, PartialEq)]
pub enum Node {
    Add(Box<Node>, Box<Node>),
    Subtract(Box<Node>, Box<Node>),
    Multiply(Box<Node>, Box<Node>),
    Divide(Box<Node>, Box<Node>),
    Caret(Box<Node>, Box<Node>),
    Negative(Box<Node>),
    Number(String),
}

/// The mathematical value of a `Node`: the same tree, with each literal as its characters.
pub enum Expr {
    Add(Box<Expr>, Box<Expr>),
    Subtract(Box<Expr>, Box<Expr>),
    Multiply(Box<Expr>, Box<Expr>),
    Divide(Box<Expr>, Box<Expr>),
    Caret(Box<Expr>, Box<Expr>),
    Negative(Box<Expr>),
    Number(Seq<char>),
}

/// The tree that `n` stands for.
pub open spec fn expr_of(n: Node) -> Expr
    decreases n,
{
    match n {
        Node::Add(a, b) => Expr::Add(Box::new(expr_of(*a)), Box::new(expr_of(*b))),
        Node::Subtract(a, b) => Expr::Subtract(Box::new(expr_of(*a)), Box::new(expr_of(*b))),
        Node::Multiply(a, b) => Expr::Multiply(Box::new(expr_of(*a)), Box::new(expr_of(*b))),
        Node::Divide(a, b) => Expr::Divide(Box::new(expr_of(*a)), Box::new(expr_of(*b))),
        Node::Caret(a, b) => Expr::Caret(Box::new(expr_of(*a)), Box::new(expr_of(*b))),
        Node::Negative(a) => Expr::Negative(Box::new(expr_of(*a))),
        Node::Number(text) => Expr::Number(text@),
    }
}

impl View for Node {
    type V = Expr;

    open spec fn view(&self) -> Expr {
        expr_of(*self)
    }
}

} // verus!
