//! Token-to-tree construction: a fixed-priority, depth-aware, recursive
//! splitting parser.
//!
//! Each grammar production has a specification function over token views and
//! an executable function proved to return exactly what the specification
//! says. The dispatcher tries the productions in one fixed order and keeps
//! the first match; that order is the entire precedence policy.

use vstd::prelude::*;
use vstd::slice::slice_subrange;
use vstd::string::StringExecFns;

use crate::ast::InterpreterError;
use crate::ast::Node;
use crate::ast::SpecNodeValue;
use crate::ast::SpecTokenValue;
use crate::ast::Token;

verus! {

/// Whether a token is one of the five binary operators.
pub open spec fn spec_token_is_operator(t: SpecTokenValue) -> bool {
    t is PlusOp || t is MinusOp || t is MultiplyOp || t is DivideOp || t is PowOp
}

/// A slice of exactly one number token is that number; an empty slice
/// defaults to the literal zero; anything else is no match.
pub open spec fn spec_parse_number(t: Seq<SpecTokenValue>) -> Option<SpecNodeValue> {
    if t.len() == 1 {
        match t[0] {
            SpecTokenValue::Number(n) => Some(SpecNodeValue::Number(n)),
            _ => None,
        }
    } else if t.len() == 0 {
        Some(SpecNodeValue::Number("0"@))
    } else {
        None
    }
}

/// A slice of exactly one angle token is that angle; there is no default for
/// an empty slice here.
pub open spec fn spec_parse_degree(t: Seq<SpecTokenValue>) -> Option<SpecNodeValue> {
    if t.len() == 1 {
        match t[0] {
            SpecTokenValue::Degree(d) => Some(SpecNodeValue::Degree(d)),
            _ => None,
        }
    } else {
        None
    }
}

/// A slice of exactly one constant token is that named constant.
pub open spec fn spec_parse_constant(t: Seq<SpecTokenValue>) -> Option<SpecNodeValue> {
    if t.len() == 1 {
        match t[0] {
            SpecTokenValue::Constant(c) => Some(SpecNodeValue::Constant(c)),
            _ => None,
        }
    } else {
        None
    }
}

/// Left-to-right scan for the production splitting on `PlusOp`. Index `i` is
/// the next position to look at; `depth` counts parentheses opened so far.
/// A split at a depth-zero operator is kept only when both sides parse; a
/// failed split resumes the scan at the next position.
pub open spec fn spec_scan_add(t: Seq<SpecTokenValue>, i: int, depth: int) -> Option<
    SpecNodeValue,
>
    decreases t.len(), 1int, t.len() - i,
{
    if i < 0 || i >= t.len() {
        None
    } else {
        match t[i] {
            SpecTokenValue::LeftParenthesis => spec_scan_add(t, i + 1, depth + 1),
            SpecTokenValue::RightParenthesis => spec_scan_add(t, i + 1, depth - 1),
            SpecTokenValue::PlusOp => {
                if depth == 0 {
                    match (
                        spec_parse_expression(t.subrange(0, i)),
                        spec_parse_expression(t.subrange(i + 1, t.len() as int)),
                    ) {
                        (Some(l), Some(r)) => Some(
                            SpecNodeValue::Add(Box::new(l), Box::new(r)),
                        ),
                        _ => spec_scan_add(t, i + 1, depth),
                    }
                } else {
                    spec_scan_add(t, i + 1, depth)
                }
            },
            _ => spec_scan_add(t, i + 1, depth),
        }
    }
}

/// The addition production: scan from the left, split at the first
/// depth-zero `PlusOp` whose two sides both parse.
pub open spec fn spec_parse_add(t: Seq<SpecTokenValue>) -> Option<SpecNodeValue>
    decreases t.len(), 2int, 0int,
{
    spec_scan_add(t, 0, 0)
}

/// Right-to-left scan for the production splitting on `MinusOp`. Index `i`
/// is the next position to look at, moving downward. A depth-zero minus is a
/// split point only when it has a neighbour on each side and neither
/// neighbour is an operator token; this keeps a unary minus that stands next
/// to another operator from being read as a subtraction.
pub open spec fn spec_scan_substract(t: Seq<SpecTokenValue>, i: int, depth: int) -> Option<
    SpecNodeValue,
>
    decreases t.len(), 1int, i + 1,
{
    if i < 0 || i >= t.len() {
        None
    } else {
        match t[i] {
            SpecTokenValue::LeftParenthesis => spec_scan_substract(t, i - 1, depth + 1),
            SpecTokenValue::RightParenthesis => spec_scan_substract(t, i - 1, depth - 1),
            SpecTokenValue::MinusOp => {
                if depth == 0 && 0 < i && i + 1 < t.len() && !spec_token_is_operator(t[i - 1])
                    && !spec_token_is_operator(t[i + 1]) {
                    match (
                        spec_parse_expression(t.subrange(0, i)),
                        spec_parse_expression(t.subrange(i + 1, t.len() as int)),
                    ) {
                        (Some(l), Some(r)) => Some(
                            SpecNodeValue::Subtract(Box::new(l), Box::new(r)),
                        ),
                        _ => spec_scan_substract(t, i - 1, depth),
                    }
                } else {
                    spec_scan_substract(t, i - 1, depth)
                }
            },
            _ => spec_scan_substract(t, i - 1, depth),
        }
    }
}

/// The subtraction production: scan from the right, split at the first
/// qualifying depth-zero `MinusOp` whose two sides both parse. Splitting at
/// the rightmost minus makes chained subtraction left-leaning, which is the
/// one place associativity matters for the numeric result.
pub open spec fn spec_parse_substract(t: Seq<SpecTokenValue>) -> Option<SpecNodeValue>
    decreases t.len(), 2int, 0int,
{
    spec_scan_substract(t, t.len() - 1, 0)
}

/// Left-to-right scan for the production splitting on `MultiplyOp`.
pub open spec fn spec_scan_multiply(t: Seq<SpecTokenValue>, i: int, depth: int) -> Option<
    SpecNodeValue,
>
    decreases t.len(), 1int, t.len() - i,
{
    if i < 0 || i >= t.len() {
        None
    } else {
        match t[i] {
            SpecTokenValue::LeftParenthesis => spec_scan_multiply(t, i + 1, depth + 1),
            SpecTokenValue::RightParenthesis => spec_scan_multiply(t, i + 1, depth - 1),
            SpecTokenValue::MultiplyOp => {
                if depth == 0 {
                    match (
                        spec_parse_expression(t.subrange(0, i)),
                        spec_parse_expression(t.subrange(i + 1, t.len() as int)),
                    ) {
                        (Some(l), Some(r)) => Some(
                            SpecNodeValue::Multiply(Box::new(l), Box::new(r)),
                        ),
                        _ => spec_scan_multiply(t, i + 1, depth),
                    }
                } else {
                    spec_scan_multiply(t, i + 1, depth)
                }
            },
            _ => spec_scan_multiply(t, i + 1, depth),
        }
    }
}

/// The multiplication production: scan from the left, split at the first
/// depth-zero `MultiplyOp` whose two sides both parse.
pub open spec fn spec_parse_multiply(t: Seq<SpecTokenValue>) -> Option<SpecNodeValue>
    decreases t.len(), 2int, 0int,
{
    spec_scan_multiply(t, 0, 0)
}

/// Left-to-right scan for the production splitting on `PowOp`.
pub open spec fn spec_scan_pow(t: Seq<SpecTokenValue>, i: int, depth: int) -> Option<
    SpecNodeValue,
>
    decreases t.len(), 1int, t.len() - i,
{
    if i < 0 || i >= t.len() {
        None
    } else {
        match t[i] {
            SpecTokenValue::LeftParenthesis => spec_scan_pow(t, i + 1, depth + 1),
            SpecTokenValue::RightParenthesis => spec_scan_pow(t, i + 1, depth - 1),
            SpecTokenValue::PowOp => {
                if depth == 0 {
                    match (
                        spec_parse_expression(t.subrange(0, i)),
                        spec_parse_expression(t.subrange(i + 1, t.len() as int)),
                    ) {
                        (Some(l), Some(r)) => Some(
                            SpecNodeValue::Pow(Box::new(l), Box::new(r)),
                        ),
                        _ => spec_scan_pow(t, i + 1, depth),
                    }
                } else {
                    spec_scan_pow(t, i + 1, depth)
                }
            },
            _ => spec_scan_pow(t, i + 1, depth),
        }
    }
}

/// The exponentiation production: scan from the left, split at the first
/// depth-zero `PowOp` whose two sides both parse. The left-to-right scan
/// makes chained exponentiation right-leaning.
pub open spec fn spec_parse_pow(t: Seq<SpecTokenValue>) -> Option<SpecNodeValue>
    decreases t.len(), 2int, 0int,
{
    spec_scan_pow(t, 0, 0)
}

/// Left-to-right scan for the production splitting on `DivideOp`.
pub open spec fn spec_scan_divide(t: Seq<SpecTokenValue>, i: int, depth: int) -> Option<
    SpecNodeValue,
>
    decreases t.len(), 1int, t.len() - i,
{
    if i < 0 || i >= t.len() {
        None
    } else {
        match t[i] {
            SpecTokenValue::LeftParenthesis => spec_scan_divide(t, i + 1, depth + 1),
            SpecTokenValue::RightParenthesis => spec_scan_divide(t, i + 1, depth - 1),
            SpecTokenValue::DivideOp => {
                if depth == 0 {
                    match (
                        spec_parse_expression(t.subrange(0, i)),
                        spec_parse_expression(t.subrange(i + 1, t.len() as int)),
                    ) {
                        (Some(l), Some(r)) => Some(
                            SpecNodeValue::Divide(Box::new(l), Box::new(r)),
                        ),
                        _ => spec_scan_divide(t, i + 1, depth),
                    }
                } else {
                    spec_scan_divide(t, i + 1, depth)
                }
            },
            _ => spec_scan_divide(t, i + 1, depth),
        }
    }
}

/// The division production: scan from the left, split at the first
/// depth-zero `DivideOp` whose two sides both parse. The left-to-right scan
/// makes chained division right-leaning.
pub open spec fn spec_parse_divide(t: Seq<SpecTokenValue>) -> Option<SpecNodeValue>
    decreases t.len(), 2int, 0int,
{
    spec_scan_divide(t, 0, 0)
}

/// The grouping production: matches only when the first token is a left
/// parenthesis and the last a right parenthesis, and the interior parses.
pub open spec fn spec_parse_between_parenthesis_expression(t: Seq<SpecTokenValue>) -> Option<
    SpecNodeValue,
>
    decreases t.len(), 2int, 0int,
{
    if t.len() >= 1 && t[0] is LeftParenthesis && t[t.len() - 1] is RightParenthesis {
        match spec_parse_expression(t.subrange(1, t.len() - 1)) {
            Some(n) => Some(SpecNodeValue::Parenthesis(Box::new(n))),
            None => None,
        }
    } else {
        None
    }
}

/// The unary-minus production: matches only a leading minus followed by a
/// parenthesized group, or a minus followed by exactly one token; the
/// remainder after the minus must parse.
pub open spec fn spec_parse_negative(t: Seq<SpecTokenValue>) -> Option<SpecNodeValue>
    decreases t.len(), 2int, 0int,
{
    if t.len() > 1 && t[0] is MinusOp && (t[1] is LeftParenthesis || t.len() == 2) {
        match spec_parse_expression(t.subrange(1, t.len() as int)) {
            Some(n) => Some(SpecNodeValue::Negative(Box::new(n))),
            None => None,
        }
    } else {
        None
    }
}

/// The dispatcher: try every production in one fixed order and keep the
/// first match. Trying addition and subtraction before multiplication,
/// exponentiation and division puts the later-tried operators deeper in the
/// tree, which gives them higher precedence.
pub open spec fn spec_parse_expression(t: Seq<SpecTokenValue>) -> Option<SpecNodeValue>
    decreases t.len(), 3int, 0int,
{
    if spec_parse_between_parenthesis_expression(t) is Some {
        spec_parse_between_parenthesis_expression(t)
    } else if spec_parse_negative(t) is Some {
        spec_parse_negative(t)
    } else if spec_parse_add(t) is Some {
        spec_parse_add(t)
    } else if spec_parse_substract(t) is Some {
        spec_parse_substract(t)
    } else if spec_parse_multiply(t) is Some {
        spec_parse_multiply(t)
    } else if spec_parse_pow(t) is Some {
        spec_parse_pow(t)
    } else if spec_parse_divide(t) is Some {
        spec_parse_divide(t)
    } else if spec_parse_constant(t) is Some {
        spec_parse_constant(t)
    } else if spec_parse_number(t) is Some {
        spec_parse_number(t)
    } else {
        spec_parse_degree(t)
    }
}

/// The deep view of a sub-slice is the matching subrange of the deep view of
/// the slice it was taken from.
proof fn lemma_subslice_deep_view(outer: &[Token], inner: &[Token], i: int, j: int)
    requires
        0 <= i <= j <= outer@.len(),
        inner@ == outer@.subrange(i, j),
    ensures
        inner.deep_view() == outer.deep_view().subrange(i, j),
{
    assert(inner.deep_view() =~= outer.deep_view().subrange(i, j));
}

/// True exactly when the token is one of the five binary operators.
pub fn token_is_operator(token: &Token) -> (r: bool)
    ensures
        r == spec_token_is_operator(token.deep_view()),
{
    match token {
        Token::PlusOp | Token::MinusOp | Token::MultiplyOp | Token::DivideOp | Token::PowOp => true,
        _ => false,
    }
}

/// Matches a single number token, or an empty slice as the literal zero.
pub fn parse_number(tokens: &[Token]) -> (r: Option<Node>)
    ensures
        r.deep_view() == spec_parse_number(tokens.deep_view()),
{
    if tokens.len() == 1 {
        match &tokens[0] {
            Token::Number(n) => Some(Node::Number(n.clone())),
            _ => None,
        }
    } else if tokens.len() == 0 {
        Some(Node::Number(String::from_str("0")))
    } else {
        None
    }
}

/// Matches a single angle token.
pub fn parse_degree(tokens: &[Token]) -> (r: Option<Node>)
    ensures
        r.deep_view() == spec_parse_degree(tokens.deep_view()),
{
    if tokens.len() == 1 {
        match &tokens[0] {
            Token::Degree(d) => Some(Node::Degree(d.clone())),
            _ => None,
        }
    } else {
        None
    }
}

/// Matches a single constant token.
pub fn parse_constant(tokens: &[Token]) -> (r: Option<Node>)
    ensures
        r.deep_view() == spec_parse_constant(tokens.deep_view()),
{
    if tokens.len() == 1 {
        match &tokens[0] {
            Token::Constant(c) => Some(Node::Constant(c.clone())),
            _ => None,
        }
    } else {
        None
    }
}

/// The addition production: scan left to right, split at the first
/// depth-zero `PlusOp` whose two sides both parse.
pub fn parse_add(tokens: &[Token]) -> (r: Option<Node>)
    ensures
        r.deep_view() == spec_parse_add(tokens.deep_view()),
    decreases tokens@.len(), 2int,
{
    let ghost t = tokens.deep_view();
    let mut opens: usize = 0;
    let mut closes: usize = 0;
    let mut i: usize = 0;
    while i < tokens.len()
        invariant
            t == tokens.deep_view(),
            i <= tokens@.len(),
            opens <= i,
            closes <= i,
            spec_parse_add(t) == spec_scan_add(t, i as int, opens - closes),
        decreases tokens@.len() - i,
    {
        match &tokens[i] {
            Token::LeftParenthesis => {
                opens = opens + 1;
            },
            Token::RightParenthesis => {
                closes = closes + 1;
            },
            Token::PlusOp => {
                if opens == closes {
                    let left_slice = slice_subrange(tokens, 0, i);
                    proof {
                        lemma_subslice_deep_view(tokens, left_slice, 0, i as int);
                    }
                    if let Some(left_side) = parse_expression(left_slice) {
                        let right_slice = slice_subrange(tokens, i + 1, tokens.len());
                        proof {
                            lemma_subslice_deep_view(
                                tokens,
                                right_slice,
                                i + 1,
                                tokens@.len() as int,
                            );
                        }
                        if let Some(right_side) = parse_expression(right_slice) {
                            return Some(Node::Add(Box::new(left_side), Box::new(right_side)));
                        }
                    }
                }
            },
            _ => {},
        }
        i = i + 1;
    }
    None
}

/// The subtraction production: scan right to left, split at the first
/// qualifying depth-zero `MinusOp` whose two sides both parse. Splitting at
/// the rightmost minus makes chained subtraction left-leaning.
pub fn parse_substract(tokens: &[Token]) -> (r: Option<Node>)
    ensures
        r.deep_view() == spec_parse_substract(tokens.deep_view()),
    decreases tokens@.len(), 2int,
{
    let ghost t = tokens.deep_view();
    let mut opens: usize = 0;
    let mut closes: usize = 0;
    let mut j: usize = tokens.len();
    while j > 0
        invariant
            t == tokens.deep_view(),
            j <= tokens@.len(),
            opens <= tokens@.len() - j,
            closes <= tokens@.len() - j,
            spec_parse_substract(t) == spec_scan_substract(t, j - 1, opens - closes),
        decreases j,
    {
        let i: usize = j - 1;
        match &tokens[i] {
            Token::LeftParenthesis => {
                opens = opens + 1;
            },
            Token::RightParenthesis => {
                closes = closes + 1;
            },
            Token::MinusOp => {
                // A minus with no token after it, or one whose neighbour is
                // itself an operator, is not a binary subtraction here.
                if opens == closes && i > 0 && i + 1 < tokens.len()
                    && !token_is_operator(&tokens[i - 1]) && !token_is_operator(&tokens[i + 1]) {
                    let left_slice = slice_subrange(tokens, 0, i);
                    proof {
                        lemma_subslice_deep_view(tokens, left_slice, 0, i as int);
                    }
                    if let Some(left_side) = parse_expression(left_slice) {
                        let right_slice = slice_subrange(tokens, i + 1, tokens.len());
                        proof {
                            lemma_subslice_deep_view(
                                tokens,
                                right_slice,
                                i + 1,
                                tokens@.len() as int,
                            );
                        }
                        if let Some(right_side) = parse_expression(right_slice) {
                            return Some(Node::Subtract(Box::new(left_side), Box::new(right_side)));
                        }
                    }
                }
            },
            _ => {},
        }
        j = i;
    }
    None
}

/// The multiplication production: scan left to right, split at the first
/// depth-zero `MultiplyOp` whose two sides both parse.
pub fn parse_multiply(tokens: &[Token]) -> (r: Option<Node>)
    ensures
        r.deep_view() == spec_parse_multiply(tokens.deep_view()),
    decreases tokens@.len(), 2int,
{
    let ghost t = tokens.deep_view();
    let mut opens: usize = 0;
    let mut closes: usize = 0;
    let mut i: usize = 0;
    while i < tokens.len()
        invariant
            t == tokens.deep_view(),
            i <= tokens@.len(),
            opens <= i,
            closes <= i,
            spec_parse_multiply(t) == spec_scan_multiply(t, i as int, opens - closes),
        decreases tokens@.len() - i,
    {
        match &tokens[i] {
            Token::LeftParenthesis => {
                opens = opens + 1;
            },
            Token::RightParenthesis => {
                closes = closes + 1;
            },
            Token::MultiplyOp => {
                if opens == closes {
                    let left_slice = slice_subrange(tokens, 0, i);
                    proof {
                        lemma_subslice_deep_view(tokens, left_slice, 0, i as int);
                    }
                    if let Some(left_side) = parse_expression(left_slice) {
                        let right_slice = slice_subrange(tokens, i + 1, tokens.len());
                        proof {
                            lemma_subslice_deep_view(
                                tokens,
                                right_slice,
                                i + 1,
                                tokens@.len() as int,
                            );
                        }
                        if let Some(right_side) = parse_expression(right_slice) {
                            return Some(Node::Multiply(Box::new(left_side), Box::new(right_side)));
                        }
                    }
                }
            },
            _ => {},
        }
        i = i + 1;
    }
    None
}

/// The exponentiation production: scan left to right, split at the first
/// depth-zero `PowOp` whose two sides both parse.
pub fn parse_pow(tokens: &[Token]) -> (r: Option<Node>)
    ensures
        r.deep_view() == spec_parse_pow(tokens.deep_view()),
    decreases tokens@.len(), 2int,
{
    let ghost t = tokens.deep_view();
    let mut opens: usize = 0;
    let mut closes: usize = 0;
    let mut i: usize = 0;
    while i < tokens.len()
        invariant
            t == tokens.deep_view(),
            i <= tokens@.len(),
            opens <= i,
            closes <= i,
            spec_parse_pow(t) == spec_scan_pow(t, i as int, opens - closes),
        decreases tokens@.len() - i,
    {
        match &tokens[i] {
            Token::LeftParenthesis => {
                opens = opens + 1;
            },
            Token::RightParenthesis => {
                closes = closes + 1;
            },
            Token::PowOp => {
                if opens == closes {
                    let left_slice = slice_subrange(tokens, 0, i);
                    proof {
                        lemma_subslice_deep_view(tokens, left_slice, 0, i as int);
                    }
                    if let Some(left_side) = parse_expression(left_slice) {
                        let right_slice = slice_subrange(tokens, i + 1, tokens.len());
                        proof {
                            lemma_subslice_deep_view(
                                tokens,
                                right_slice,
                                i + 1,
                                tokens@.len() as int,
                            );
                        }
                        if let Some(right_side) = parse_expression(right_slice) {
                            return Some(Node::Pow(Box::new(left_side), Box::new(right_side)));
                        }
                    }
                }
            },
            _ => {},
        }
        i = i + 1;
    }
    None
}

/// The division production: scan left to right, split at the first
/// depth-zero `DivideOp` whose two sides both parse.
pub fn parse_divide(tokens: &[Token]) -> (r: Option<Node>)
    ensures
        r.deep_view() == spec_parse_divide(tokens.deep_view()),
    decreases tokens@.len(), 2int,
{
    let ghost t = tokens.deep_view();
    let mut opens: usize = 0;
    let mut closes: usize = 0;
    let mut i: usize = 0;
    while i < tokens.len()
        invariant
            t == tokens.deep_view(),
            i <= tokens@.len(),
            opens <= i,
            closes <= i,
            spec_parse_divide(t) == spec_scan_divide(t, i as int, opens - closes),
        decreases tokens@.len() - i,
    {
        match &tokens[i] {
            Token::LeftParenthesis => {
                opens = opens + 1;
            },
            Token::RightParenthesis => {
                closes = closes + 1;
            },
            Token::DivideOp => {
                if opens == closes {
                    let left_slice = slice_subrange(tokens, 0, i);
                    proof {
                        lemma_subslice_deep_view(tokens, left_slice, 0, i as int);
                    }
                    if let Some(left_side) = parse_expression(left_slice) {
                        let right_slice = slice_subrange(tokens, i + 1, tokens.len());
                        proof {
                            lemma_subslice_deep_view(
                                tokens,
                                right_slice,
                                i + 1,
                                tokens@.len() as int,
                            );
                        }
                        if let Some(right_side) = parse_expression(right_slice) {
                            return Some(Node::Divide(Box::new(left_side), Box::new(right_side)));
                        }
                    }
                }
            },
            _ => {},
        }
        i = i + 1;
    }
    None
}

/// The grouping production: the slice must begin with a left parenthesis and
/// end with a right parenthesis, and its interior must parse.
pub fn parse_between_parenthesis_expression(tokens: &[Token]) -> (r: Option<Node>)
    ensures
        r.deep_view() == spec_parse_between_parenthesis_expression(tokens.deep_view()),
    decreases tokens@.len(), 2int,
{
    if tokens.len() >= 1 {
        let first_is_left = match &tokens[0] {
            Token::LeftParenthesis => true,
            _ => false,
        };
        let last_is_right = match &tokens[tokens.len() - 1] {
            Token::RightParenthesis => true,
            _ => false,
        };
        if first_is_left && last_is_right {
            assert(tokens@.len() >= 2);
            let inner = slice_subrange(tokens, 1, tokens.len() - 1);
            proof {
                lemma_subslice_deep_view(tokens, inner, 1, tokens@.len() - 1);
            }
            match parse_expression(inner) {
                Some(n) => {
                    return Some(Node::Parenthesis(Box::new(n)));
                },
                None => {
                    return None;
                },
            }
        }
    }
    None
}

/// The unary-minus production: a leading minus followed by a parenthesized
/// group, or a minus followed by exactly one token.
pub fn parse_negative(tokens: &[Token]) -> (r: Option<Node>)
    ensures
        r.deep_view() == spec_parse_negative(tokens.deep_view()),
    decreases tokens@.len(), 2int,
{
    if tokens.len() > 1 {
        let first_is_minus = match &tokens[0] {
            Token::MinusOp => true,
            _ => false,
        };
        let second_is_left = match &tokens[1] {
            Token::LeftParenthesis => true,
            _ => false,
        };
        if first_is_minus && (second_is_left || tokens.len() == 2) {
            let rest = slice_subrange(tokens, 1, tokens.len());
            proof {
                lemma_subslice_deep_view(tokens, rest, 1, tokens@.len() as int);
            }
            match parse_expression(rest) {
                Some(expression) => {
                    return Some(Node::Negative(Box::new(expression)));
                },
                None => {
                    return None;
                },
            }
        }
    }
    None
}

/// The dispatcher: try every production in the fixed order and keep the
/// first match.
pub fn parse_expression(tokens: &[Token]) -> (r: Option<Node>)
    ensures
        r.deep_view() == spec_parse_expression(tokens.deep_view()),
    decreases tokens@.len(), 3int,
{
    let mut node = parse_between_parenthesis_expression(tokens);
    if node.is_none() {
        node = parse_negative(tokens);
    }
    if node.is_none() {
        node = parse_add(tokens);
    }
    if node.is_none() {
        node = parse_substract(tokens);
    }
    if node.is_none() {
        node = parse_multiply(tokens);
    }
    if node.is_none() {
        node = parse_pow(tokens);
    }
    if node.is_none() {
        node = parse_divide(tokens);
    }
    if node.is_none() {
        node = parse_constant(tokens);
    }
    if node.is_none() {
        node = parse_number(tokens);
    }
    if node.is_none() {
        node = parse_degree(tokens);
    }
    node
}

/// The entry point: parse the whole token sequence into one tree, or report
/// the single syntax-error kind when no production matches it.
pub fn parse(tokens: Vec<Token>) -> (r: Result<Node, InterpreterError>)
    ensures
        spec_parse_expression(tokens.deep_view()) matches Some(n) ==> r matches Ok(root)
            && root.deep_view() == n,
        spec_parse_expression(tokens.deep_view()) is None ==> r == Err::<Node, InterpreterError>(
            InterpreterError::SyntaxError,
        ),
{
    let slice = tokens.as_slice();
    proof {
        assert(slice.deep_view() =~= tokens.deep_view());
    }
    let root = parse_expression(slice);
    match root {
        Some(node) => Ok(node),
        None => Err(InterpreterError::SyntaxError),
    }
}

} // verus!
