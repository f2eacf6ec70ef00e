//! The lexical tokens the parser consumes, the tree nodes it produces, and the
//! mathematical views of both.

use vstd::prelude::*;

verus! {

/// One lexical unit of an arithmetic expression, as handed over by a lexer.
/// Literal payloads (numbers, angle literals, constant names) are kept as the
/// text that was scanned; no numeric interpretation happens in this crate.
#[derive(Debug, Clone, PartialEq, Eq)]
pub enum Token {
    Number(String),
    Degree(String),
    Constant(String),
    PlusOp,
    MinusOp,
    MultiplyOp,
    DivideOp,
    PowOp,
    LeftParenthesis,
    RightParenthesis,
}

/// The mathematical view of a `Token`: the same variants with the literal text
/// abstracted to a sequence of characters.
pub enum SpecTokenValue {
    Number(Seq<char>),
    Degree(Seq<char>),
    Constant(Seq<char>),
    PlusOp,
    MinusOp,
    MultiplyOp,
    DivideOp,
    PowOp,
    LeftParenthesis,
    RightParenthesis,
}

/// One node of the abstract syntax tree. Leaves echo the literal text of the
/// token they came from; interior nodes exclusively own their children.
#[derive(Debug, PartialEq, Eq)]
pub enum Node {
    Number(String),
    Degree(String),
    Constant(String),
    Parenthesis(Box<Node>),
    Negative(Box<Node>),
    Add(Box<Node>, Box<Node>),
    Subtract(Box<Node>, Box<Node>),
    Multiply(Box<Node>, Box<Node>),
    Divide(Box<Node>, Box<Node>),
    Pow(Box<Node>, Box<Node>),
}

/// The mathematical view of a `Node`, with literal text abstracted to
/// character sequences.
pub enum SpecNodeValue {
    Number(Seq<char>),
    Degree(Seq<char>),
    Constant(Seq<char>),
    Parenthesis(Box<SpecNodeValue>),
    Negative(Box<SpecNodeValue>),
    Add(Box<SpecNodeValue>, Box<SpecNodeValue>),
    Subtract(Box<SpecNodeValue>, Box<SpecNodeValue>),
    Multiply(Box<SpecNodeValue>, Box<SpecNodeValue>),
    Divide(Box<SpecNodeValue>, Box<SpecNodeValue>),
    Pow(Box<SpecNodeValue>, Box<SpecNodeValue>),
}

/// The one way parsing can fail: no grammar production matched the whole
/// token sequence. No position information is attached.
#[derive(Debug, Clone, PartialEq, Eq)]
pub enum InterpreterError {
    SyntaxError,
}

pub open spec fn token_view(t: Token) -> SpecTokenValue {
    match t {
        Token::Number(s) => SpecTokenValue::Number(s@),
        Token::Degree(s) => SpecTokenValue::Degree(s@),
        Token::Constant(s) => SpecTokenValue::Constant(s@),
        Token::PlusOp => SpecTokenValue::PlusOp,
        Token::MinusOp => SpecTokenValue::MinusOp,
        Token::MultiplyOp => SpecTokenValue::MultiplyOp,
        Token::DivideOp => SpecTokenValue::DivideOp,
        Token::PowOp => SpecTokenValue::PowOp,
        Token::LeftParenthesis => SpecTokenValue::LeftParenthesis,
        Token::RightParenthesis => SpecTokenValue::RightParenthesis,
    }
}

pub open spec fn node_view(n: Node) -> SpecNodeValue
    decreases n,
{
    match n {
        Node::Number(s) => SpecNodeValue::Number(s@),
        Node::Degree(s) => SpecNodeValue::Degree(s@),
        Node::Constant(s) => SpecNodeValue::Constant(s@),
        Node::Parenthesis(inner) => SpecNodeValue::Parenthesis(Box::new(node_view(*inner))),
        Node::Negative(inner) => SpecNodeValue::Negative(Box::new(node_view(*inner))),
        Node::Add(l, r) => SpecNodeValue::Add(Box::new(node_view(*l)), Box::new(node_view(*r))),
        Node::Subtract(l, r) => SpecNodeValue::Subtract(
            Box::new(node_view(*l)),
            Box::new(node_view(*r)),
        ),
        Node::Multiply(l, r) => SpecNodeValue::Multiply(
            Box::new(node_view(*l)),
            Box::new(node_view(*r)),
        ),
        Node::Divide(l, r) => SpecNodeValue::Divide(
            Box::new(node_view(*l)),
            Box::new(node_view(*r)),
        ),
        Node::Pow(l, r) => SpecNodeValue::Pow(Box::new(node_view(*l)), Box::new(node_view(*r))),
    }
}

impl View for Token {
    type V = SpecTokenValue;

    open spec fn view(&self) -> SpecTokenValue {
        token_view(*self)
    }
}

impl DeepView for Token {
    type V = SpecTokenValue;

    open spec fn deep_view(&self) -> SpecTokenValue {
        token_view(*self)
    }
}

impl View for Node {
    type V = SpecNodeValue;

    open spec fn view(&self) -> SpecNodeValue {
        node_view(*self)
    }
}

impl DeepView for Node {
    type V = SpecNodeValue;

    open spec fn deep_view(&self) -> SpecNodeValue {
        node_view(*self)
    }
}

} // verus!
