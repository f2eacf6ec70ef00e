use calc_parser::ast::InterpreterError;
use calc_parser::ast::Node;
use calc_parser::ast::Token;
use calc_parser::parser::parse;
use calc_parser::parser::parse_expression;
use calc_parser::parser::parse_number;
use calc_parser::parser::token_is_operator;

fn num(s: &str) -> Token {
    Token::Number(s.to_string())
}

fn num_node(s: &str) -> Node {
    Node::Number(s.to_string())
}

#[test]
fn single_number_is_verbatim() {
    assert_eq!(parse(vec![num("5")]), Ok(num_node("5")));
    assert_eq!(parse(vec![num("007")]), Ok(num_node("007")));
}

#[test]
fn single_degree_is_verbatim() {
    assert_eq!(
        parse(vec![Token::Degree("90".to_string())]),
        Ok(Node::Degree("90".to_string()))
    );
}

#[test]
fn single_constant_is_verbatim() {
    assert_eq!(
        parse(vec![Token::Constant("pi".to_string())]),
        Ok(Node::Constant("pi".to_string()))
    );
}

#[test]
fn add_of_two_numbers() {
    assert_eq!(
        parse(vec![num("1"), Token::PlusOp, num("2")]),
        Ok(Node::Add(Box::new(num_node("1")), Box::new(num_node("2"))))
    );
}

#[test]
fn substract_of_two_numbers() {
    assert_eq!(
        parse(vec![num("5"), Token::MinusOp, num("3")]),
        Ok(Node::Subtract(
            Box::new(num_node("5")),
            Box::new(num_node("3"))
        ))
    );
}

#[test]
fn multiply_of_two_numbers() {
    assert_eq!(
        parse(vec![num("4"), Token::MultiplyOp, num("6")]),
        Ok(Node::Multiply(
            Box::new(num_node("4")),
            Box::new(num_node("6"))
        ))
    );
}

#[test]
fn divide_of_two_numbers() {
    assert_eq!(
        parse(vec![num("8"), Token::DivideOp, num("2")]),
        Ok(Node::Divide(
            Box::new(num_node("8")),
            Box::new(num_node("2"))
        ))
    );
}

#[test]
fn pow_of_two_numbers() {
    assert_eq!(
        parse(vec![num("2"), Token::PowOp, num("10")]),
        Ok(Node::Pow(Box::new(num_node("2")), Box::new(num_node("10"))))
    );
}

#[test]
fn parenthesis_wraps_the_inner_tree() {
    assert_eq!(
        parse(vec![
            Token::LeftParenthesis,
            num("1"),
            Token::PlusOp,
            num("2"),
            Token::RightParenthesis,
        ]),
        Ok(Node::Parenthesis(Box::new(Node::Add(
            Box::new(num_node("1")),
            Box::new(num_node("2"))
        ))))
    );
}

#[test]
fn no_split_inside_parentheses() {
    // 1 + ( 2 + 3 ): the split happens at the outer plus only.
    assert_eq!(
        parse(vec![
            num("1"),
            Token::PlusOp,
            Token::LeftParenthesis,
            num("2"),
            Token::PlusOp,
            num("3"),
            Token::RightParenthesis,
        ]),
        Ok(Node::Add(
            Box::new(num_node("1")),
            Box::new(Node::Parenthesis(Box::new(Node::Add(
                Box::new(num_node("2")),
                Box::new(num_node("3"))
            ))))
        ))
    );
}

#[test]
fn substract_chain_is_left_leaning() {
    // 5 - 3 - 2: the rightmost minus splits first.
    assert_eq!(
        parse(vec![
            num("5"),
            Token::MinusOp,
            num("3"),
            Token::MinusOp,
            num("2"),
        ]),
        Ok(Node::Subtract(
            Box::new(Node::Subtract(
                Box::new(num_node("5")),
                Box::new(num_node("3"))
            )),
            Box::new(num_node("2"))
        ))
    );
}

#[test]
fn divide_chain_is_right_leaning() {
    // 8 / 4 / 2: the leftmost slash splits first.
    assert_eq!(
        parse(vec![
            num("8"),
            Token::DivideOp,
            num("4"),
            Token::DivideOp,
            num("2"),
        ]),
        Ok(Node::Divide(
            Box::new(num_node("8")),
            Box::new(Node::Divide(
                Box::new(num_node("4")),
                Box::new(num_node("2"))
            ))
        ))
    );
}

#[test]
fn pow_chain_is_right_leaning() {
    assert_eq!(
        parse(vec![num("2"), Token::PowOp, num("3"), Token::PowOp, num("2")]),
        Ok(Node::Pow(
            Box::new(num_node("2")),
            Box::new(Node::Pow(
                Box::new(num_node("3")),
                Box::new(num_node("2"))
            ))
        ))
    );
}

#[test]
fn addition_binds_looser_than_multiplication() {
    // 1 + 2 * 3
    assert_eq!(
        parse(vec![
            num("1"),
            Token::PlusOp,
            num("2"),
            Token::MultiplyOp,
            num("3"),
        ]),
        Ok(Node::Add(
            Box::new(num_node("1")),
            Box::new(Node::Multiply(
                Box::new(num_node("2")),
                Box::new(num_node("3"))
            ))
        ))
    );
}

#[test]
fn grouping_overrides_precedence() {
    // ( 1 - 1 ) * 5
    assert_eq!(
        parse(vec![
            Token::LeftParenthesis,
            num("1"),
            Token::MinusOp,
            num("1"),
            Token::RightParenthesis,
            Token::MultiplyOp,
            num("5"),
        ]),
        Ok(Node::Multiply(
            Box::new(Node::Parenthesis(Box::new(Node::Subtract(
                Box::new(num_node("1")),
                Box::new(num_node("1"))
            )))),
            Box::new(num_node("5"))
        ))
    );
}

#[test]
fn negative_of_single_token() {
    assert_eq!(
        parse(vec![Token::MinusOp, num("5")]),
        Ok(Node::Negative(Box::new(num_node("5"))))
    );
}

#[test]
fn negative_of_parenthesized_group() {
    assert_eq!(
        parse(vec![
            Token::MinusOp,
            Token::LeftParenthesis,
            num("1"),
            Token::PlusOp,
            num("2"),
            Token::RightParenthesis,
        ]),
        Ok(Node::Negative(Box::new(Node::Parenthesis(Box::new(
            Node::Add(Box::new(num_node("1")), Box::new(num_node("2")))
        )))))
    );
}

#[test]
fn minus_before_wide_remainder_is_not_unary() {
    // - 1 + 2: the unary production does not match; the addition splits the
    // whole slice, and its left side is the two-token unary form.
    assert_eq!(
        parse(vec![Token::MinusOp, num("1"), Token::PlusOp, num("2")]),
        Ok(Node::Add(
            Box::new(Node::Negative(Box::new(num_node("1")))),
            Box::new(num_node("2"))
        ))
    );
}

#[test]
fn empty_input_defaults_to_zero() {
    assert_eq!(parse(vec![]), Ok(num_node("0")));
    assert_eq!(parse_number(&[]), Some(num_node("0")));
}

#[test]
fn vacant_right_operand_defaults_to_zero() {
    // 1 +: the right sub-slice is empty and parses as the zero leaf.
    assert_eq!(
        parse(vec![num("1"), Token::PlusOp]),
        Ok(Node::Add(Box::new(num_node("1")), Box::new(num_node("0"))))
    );
}

#[test]
fn unbalanced_parenthesis_is_a_syntax_error() {
    assert_eq!(
        parse(vec![Token::LeftParenthesis, num("1"), Token::PlusOp, num("2")]),
        Err(InterpreterError::SyntaxError)
    );
    assert_eq!(
        parse(vec![Token::RightParenthesis]),
        Err(InterpreterError::SyntaxError)
    );
}

#[test]
fn trailing_minus_is_a_syntax_error() {
    assert_eq!(
        parse(vec![num("1"), Token::MinusOp]),
        Err(InterpreterError::SyntaxError)
    );
}

#[test]
fn expression_dispatch_returns_none_without_a_match() {
    assert_eq!(
        parse_expression(&[Token::LeftParenthesis, num("1")]),
        None
    );
}

#[test]
fn operator_tokens_are_classified() {
    assert!(token_is_operator(&Token::PlusOp));
    assert!(token_is_operator(&Token::MinusOp));
    assert!(token_is_operator(&Token::MultiplyOp));
    assert!(token_is_operator(&Token::DivideOp));
    assert!(token_is_operator(&Token::PowOp));
    assert!(!token_is_operator(&num("1")));
    assert!(!token_is_operator(&Token::LeftParenthesis));
    assert!(!token_is_operator(&Token::RightParenthesis));
    assert!(!token_is_operator(&Token::Degree("90".to_string())));
    assert!(!token_is_operator(&Token::Constant("pi".to_string())));
}
