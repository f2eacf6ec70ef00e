//! Laws of the grammar that hold for every input, proved once and for all
//! over the specification functions that the parser's contracts are stated
//! in.

use vstd::prelude::*;

use crate::ast::SpecNodeValue;
use crate::ast::SpecTokenValue;
use crate::parser::spec_parse_between_parenthesis_expression;
use crate::parser::spec_parse_constant;
use crate::parser::spec_parse_expression;
use crate::parser::spec_parse_negative;
use crate::parser::spec_parse_number;
use crate::parser::spec_scan_add;
use crate::parser::spec_scan_divide;
use crate::parser::spec_scan_multiply;
use crate::parser::spec_scan_pow;
use crate::parser::spec_scan_substract;

verus! {

/// A slice without a `PlusOp` from position `i` on gives the addition scan
/// nothing to split at, whatever the depth.
proof fn lemma_scan_add_none(t: Seq<SpecTokenValue>, i: int, depth: int)
    requires
        forall|k: int| i <= k < t.len() ==> !(t[k] is PlusOp),
    ensures
        spec_scan_add(t, i, depth) is None,
    decreases t.len() - i + 1,
{
    if 0 <= i && i < t.len() {
        lemma_scan_add_none(t, i + 1, depth + 1);
        lemma_scan_add_none(t, i + 1, depth - 1);
        lemma_scan_add_none(t, i + 1, depth);
        assert(!(t[i] is PlusOp));
    }
}

/// A slice without a `MultiplyOp` from position `i` on gives the
/// multiplication scan nothing to split at, whatever the depth.
proof fn lemma_scan_multiply_none(t: Seq<SpecTokenValue>, i: int, depth: int)
    requires
        forall|k: int| i <= k < t.len() ==> !(t[k] is MultiplyOp),
    ensures
        spec_scan_multiply(t, i, depth) is None,
    decreases t.len() - i + 1,
{
    if 0 <= i && i < t.len() {
        lemma_scan_multiply_none(t, i + 1, depth + 1);
        lemma_scan_multiply_none(t, i + 1, depth - 1);
        lemma_scan_multiply_none(t, i + 1, depth);
        assert(!(t[i] is MultiplyOp));
    }
}

/// A slice without a `PowOp` from position `i` on gives the exponentiation
/// scan nothing to split at, whatever the depth.
proof fn lemma_scan_pow_none(t: Seq<SpecTokenValue>, i: int, depth: int)
    requires
        forall|k: int| i <= k < t.len() ==> !(t[k] is PowOp),
    ensures
        spec_scan_pow(t, i, depth) is None,
    decreases t.len() - i + 1,
{
    if 0 <= i && i < t.len() {
        lemma_scan_pow_none(t, i + 1, depth + 1);
        lemma_scan_pow_none(t, i + 1, depth - 1);
        lemma_scan_pow_none(t, i + 1, depth);
        assert(!(t[i] is PowOp));
    }
}

/// A slice without a `DivideOp` from position `i` on gives the division scan
/// nothing to split at, whatever the depth.
proof fn lemma_scan_divide_none(t: Seq<SpecTokenValue>, i: int, depth: int)
    requires
        forall|k: int| i <= k < t.len() ==> !(t[k] is DivideOp),
    ensures
        spec_scan_divide(t, i, depth) is None,
    decreases t.len() - i + 1,
{
    if 0 <= i && i < t.len() {
        lemma_scan_divide_none(t, i + 1, depth + 1);
        lemma_scan_divide_none(t, i + 1, depth - 1);
        lemma_scan_divide_none(t, i + 1, depth);
        assert(!(t[i] is DivideOp));
    }
}

/// A slice without a `MinusOp` at or below position `i` gives the
/// subtraction scan nothing to split at, whatever the depth.
proof fn lemma_scan_substract_none(t: Seq<SpecTokenValue>, i: int, depth: int)
    requires
        forall|k: int| 0 <= k <= i && k < t.len() ==> !(t[k] is MinusOp),
    ensures
        spec_scan_substract(t, i, depth) is None,
    decreases i + 1,
{
    if 0 <= i && i < t.len() {
        lemma_scan_substract_none(t, i - 1, depth + 1);
        lemma_scan_substract_none(t, i - 1, depth - 1);
        lemma_scan_substract_none(t, i - 1, depth);
        assert(!(t[i] is MinusOp));
    }
}

/// A single number token parses to a number leaf carrying the same literal
/// text, with nothing normalized or rewritten.
pub proof fn lemma_parse_single_number(s: Seq<char>)
    ensures
        spec_parse_expression(seq![SpecTokenValue::Number(s)]) == Some(SpecNodeValue::Number(s)),
{
    let t = seq![SpecTokenValue::Number(s)];
    lemma_scan_add_none(t, 0, 0);
    lemma_scan_substract_none(t, 0, 0);
    lemma_scan_multiply_none(t, 0, 0);
    lemma_scan_pow_none(t, 0, 0);
    lemma_scan_divide_none(t, 0, 0);
    assert(spec_parse_between_parenthesis_expression(t) is None);
    assert(spec_parse_negative(t) is None);
    assert(spec_parse_constant(t) is None);
    assert(spec_parse_number(t) == Some(SpecNodeValue::Number(s)));
}

/// A number, a plus, and a number parse to an addition node whose children
/// are the two number leaves.
pub proof fn lemma_parse_add_of_numbers(a: Seq<char>, b: Seq<char>)
    ensures
        spec_parse_expression(
            seq![SpecTokenValue::Number(a), SpecTokenValue::PlusOp, SpecTokenValue::Number(b)],
        ) == Some(
            SpecNodeValue::Add(
                Box::new(SpecNodeValue::Number(a)),
                Box::new(SpecNodeValue::Number(b)),
            ),
        ),
{
    let t = seq![SpecTokenValue::Number(a), SpecTokenValue::PlusOp, SpecTokenValue::Number(b)];
    let expected = SpecNodeValue::Add(
        Box::new(SpecNodeValue::Number(a)),
        Box::new(SpecNodeValue::Number(b)),
    );
    assert(t.subrange(0, 1) =~= seq![SpecTokenValue::Number(a)]);
    assert(t.subrange(2, 3) =~= seq![SpecTokenValue::Number(b)]);
    lemma_parse_single_number(a);
    lemma_parse_single_number(b);
    assert(spec_scan_add(t, 1, 0) == Some(expected));
    assert(spec_scan_add(t, 0, 0) == Some(expected));
    assert(spec_parse_between_parenthesis_expression(t) is None);
    assert(spec_parse_negative(t) is None);
    assert(spec_parse_expression(t) == Some(expected));
}

/// A number, a minus, and a number parse to a subtraction node whose
/// children are the two number leaves.
pub proof fn lemma_parse_substract_of_numbers(a: Seq<char>, b: Seq<char>)
    ensures
        spec_parse_expression(
            seq![SpecTokenValue::Number(a), SpecTokenValue::MinusOp, SpecTokenValue::Number(b)],
        ) == Some(
            SpecNodeValue::Subtract(
                Box::new(SpecNodeValue::Number(a)),
                Box::new(SpecNodeValue::Number(b)),
            ),
        ),
{
    let t = seq![SpecTokenValue::Number(a), SpecTokenValue::MinusOp, SpecTokenValue::Number(b)];
    let expected = SpecNodeValue::Subtract(
        Box::new(SpecNodeValue::Number(a)),
        Box::new(SpecNodeValue::Number(b)),
    );
    assert(t.subrange(0, 1) =~= seq![SpecTokenValue::Number(a)]);
    assert(t.subrange(2, 3) =~= seq![SpecTokenValue::Number(b)]);
    lemma_parse_single_number(a);
    lemma_parse_single_number(b);
    lemma_scan_add_none(t, 0, 0);
    assert(spec_scan_substract(t, 2, 0) == spec_scan_substract(t, 1, 0));
    assert(spec_scan_substract(t, 1, 0) == Some(expected));
    assert(spec_parse_between_parenthesis_expression(t) is None);
    assert(spec_parse_negative(t) is None);
    assert(spec_parse_expression(t) == Some(expected));
}

/// A number, a multiplication sign, and a number parse to a multiplication
/// node whose children are the two number leaves.
pub proof fn lemma_parse_multiply_of_numbers(a: Seq<char>, b: Seq<char>)
    ensures
        spec_parse_expression(
            seq![SpecTokenValue::Number(a), SpecTokenValue::MultiplyOp, SpecTokenValue::Number(b)],
        ) == Some(
            SpecNodeValue::Multiply(
                Box::new(SpecNodeValue::Number(a)),
                Box::new(SpecNodeValue::Number(b)),
            ),
        ),
{
    let t = seq![SpecTokenValue::Number(a), SpecTokenValue::MultiplyOp, SpecTokenValue::Number(b)];
    let expected = SpecNodeValue::Multiply(
        Box::new(SpecNodeValue::Number(a)),
        Box::new(SpecNodeValue::Number(b)),
    );
    assert(t.subrange(0, 1) =~= seq![SpecTokenValue::Number(a)]);
    assert(t.subrange(2, 3) =~= seq![SpecTokenValue::Number(b)]);
    lemma_parse_single_number(a);
    lemma_parse_single_number(b);
    lemma_scan_add_none(t, 0, 0);
    lemma_scan_substract_none(t, 2, 0);
    assert(spec_scan_multiply(t, 1, 0) == Some(expected));
    assert(spec_scan_multiply(t, 0, 0) == Some(expected));
    assert(spec_parse_between_parenthesis_expression(t) is None);
    assert(spec_parse_negative(t) is None);
    assert(spec_parse_expression(t) == Some(expected));
}

/// A number, an exponentiation sign, and a number parse to an
/// exponentiation node whose children are the two number leaves.
pub proof fn lemma_parse_pow_of_numbers(a: Seq<char>, b: Seq<char>)
    ensures
        spec_parse_expression(
            seq![SpecTokenValue::Number(a), SpecTokenValue::PowOp, SpecTokenValue::Number(b)],
        ) == Some(
            SpecNodeValue::Pow(
                Box::new(SpecNodeValue::Number(a)),
                Box::new(SpecNodeValue::Number(b)),
            ),
        ),
{
    let t = seq![SpecTokenValue::Number(a), SpecTokenValue::PowOp, SpecTokenValue::Number(b)];
    let expected = SpecNodeValue::Pow(
        Box::new(SpecNodeValue::Number(a)),
        Box::new(SpecNodeValue::Number(b)),
    );
    assert(t.subrange(0, 1) =~= seq![SpecTokenValue::Number(a)]);
    assert(t.subrange(2, 3) =~= seq![SpecTokenValue::Number(b)]);
    lemma_parse_single_number(a);
    lemma_parse_single_number(b);
    lemma_scan_add_none(t, 0, 0);
    lemma_scan_substract_none(t, 2, 0);
    lemma_scan_multiply_none(t, 0, 0);
    assert(spec_scan_pow(t, 1, 0) == Some(expected));
    assert(spec_scan_pow(t, 0, 0) == Some(expected));
    assert(spec_parse_between_parenthesis_expression(t) is None);
    assert(spec_parse_negative(t) is None);
    assert(spec_parse_expression(t) == Some(expected));
}

/// A number, a division sign, and a number parse to a division node whose
/// children are the two number leaves.
pub proof fn lemma_parse_divide_of_numbers(a: Seq<char>, b: Seq<char>)
    ensures
        spec_parse_expression(
            seq![SpecTokenValue::Number(a), SpecTokenValue::DivideOp, SpecTokenValue::Number(b)],
        ) == Some(
            SpecNodeValue::Divide(
                Box::new(SpecNodeValue::Number(a)),
                Box::new(SpecNodeValue::Number(b)),
            ),
        ),
{
    let t = seq![SpecTokenValue::Number(a), SpecTokenValue::DivideOp, SpecTokenValue::Number(b)];
    let expected = SpecNodeValue::Divide(
        Box::new(SpecNodeValue::Number(a)),
        Box::new(SpecNodeValue::Number(b)),
    );
    assert(t.subrange(0, 1) =~= seq![SpecTokenValue::Number(a)]);
    assert(t.subrange(2, 3) =~= seq![SpecTokenValue::Number(b)]);
    lemma_parse_single_number(a);
    lemma_parse_single_number(b);
    lemma_scan_add_none(t, 0, 0);
    lemma_scan_substract_none(t, 2, 0);
    lemma_scan_multiply_none(t, 0, 0);
    lemma_scan_pow_none(t, 0, 0);
    assert(spec_scan_divide(t, 1, 0) == Some(expected));
    assert(spec_scan_divide(t, 0, 0) == Some(expected));
    assert(spec_parse_between_parenthesis_expression(t) is None);
    assert(spec_parse_negative(t) is None);
    assert(spec_parse_expression(t) == Some(expected));
}

/// A subtraction chain of three numbers splits at its rightmost minus, so
/// the tree leans left and the chain evaluates left to right.
pub proof fn lemma_substract_chain_left_leaning(a: Seq<char>, b: Seq<char>, c: Seq<char>)
    ensures
        spec_parse_expression(
            seq![
                SpecTokenValue::Number(a),
                SpecTokenValue::MinusOp,
                SpecTokenValue::Number(b),
                SpecTokenValue::MinusOp,
                SpecTokenValue::Number(c),
            ],
        ) == Some(
            SpecNodeValue::Subtract(
                Box::new(
                    SpecNodeValue::Subtract(
                        Box::new(SpecNodeValue::Number(a)),
                        Box::new(SpecNodeValue::Number(b)),
                    ),
                ),
                Box::new(SpecNodeValue::Number(c)),
            ),
        ),
{
    let t = seq![
        SpecTokenValue::Number(a),
        SpecTokenValue::MinusOp,
        SpecTokenValue::Number(b),
        SpecTokenValue::MinusOp,
        SpecTokenValue::Number(c),
    ];
    let expected = SpecNodeValue::Subtract(
        Box::new(
            SpecNodeValue::Subtract(
                Box::new(SpecNodeValue::Number(a)),
                Box::new(SpecNodeValue::Number(b)),
            ),
        ),
        Box::new(SpecNodeValue::Number(c)),
    );
    assert(t.subrange(0, 3) =~= seq![
        SpecTokenValue::Number(a),
        SpecTokenValue::MinusOp,
        SpecTokenValue::Number(b),
    ]);
    assert(t.subrange(4, 5) =~= seq![SpecTokenValue::Number(c)]);
    lemma_parse_substract_of_numbers(a, b);
    lemma_parse_single_number(c);
    lemma_scan_add_none(t, 0, 0);
    assert(spec_scan_substract(t, 3, 0) == Some(expected));
    assert(spec_scan_substract(t, 4, 0) == Some(expected));
    assert(spec_parse_between_parenthesis_expression(t) is None);
    assert(spec_parse_negative(t) is None);
    assert(spec_parse_expression(t) == Some(expected));
}

/// A division chain of three numbers splits at its leftmost slash, so the
/// tree leans right: the divisor is itself the quotient of the last two
/// numbers, not the running quotient of the first two.
pub proof fn lemma_divide_chain_right_leaning(a: Seq<char>, b: Seq<char>, c: Seq<char>)
    ensures
        spec_parse_expression(
            seq![
                SpecTokenValue::Number(a),
                SpecTokenValue::DivideOp,
                SpecTokenValue::Number(b),
                SpecTokenValue::DivideOp,
                SpecTokenValue::Number(c),
            ],
        ) == Some(
            SpecNodeValue::Divide(
                Box::new(SpecNodeValue::Number(a)),
                Box::new(
                    SpecNodeValue::Divide(
                        Box::new(SpecNodeValue::Number(b)),
                        Box::new(SpecNodeValue::Number(c)),
                    ),
                ),
            ),
        ),
{
    let t = seq![
        SpecTokenValue::Number(a),
        SpecTokenValue::DivideOp,
        SpecTokenValue::Number(b),
        SpecTokenValue::DivideOp,
        SpecTokenValue::Number(c),
    ];
    let expected = SpecNodeValue::Divide(
        Box::new(SpecNodeValue::Number(a)),
        Box::new(
            SpecNodeValue::Divide(
                Box::new(SpecNodeValue::Number(b)),
                Box::new(SpecNodeValue::Number(c)),
            ),
        ),
    );
    assert(t.subrange(0, 1) =~= seq![SpecTokenValue::Number(a)]);
    assert(t.subrange(2, 5) =~= seq![
        SpecTokenValue::Number(b),
        SpecTokenValue::DivideOp,
        SpecTokenValue::Number(c),
    ]);
    lemma_parse_single_number(a);
    lemma_parse_divide_of_numbers(b, c);
    lemma_scan_add_none(t, 0, 0);
    lemma_scan_substract_none(t, 4, 0);
    lemma_scan_multiply_none(t, 0, 0);
    lemma_scan_pow_none(t, 0, 0);
    assert(spec_scan_divide(t, 1, 0) == Some(expected));
    assert(spec_scan_divide(t, 0, 0) == Some(expected));
    assert(spec_parse_between_parenthesis_expression(t) is None);
    assert(spec_parse_negative(t) is None);
    assert(spec_parse_expression(t) == Some(expected));
}

/// Wrapping any token sequence that already parses in one pair of
/// parentheses parses to exactly the old tree inside a grouping node.
pub proof fn lemma_parenthesis_round_trip(e: Seq<SpecTokenValue>)
    requires
        spec_parse_expression(e) is Some,
    ensures
        spec_parse_expression(
            seq![SpecTokenValue::LeftParenthesis] + e + seq![SpecTokenValue::RightParenthesis],
        ) == Some(SpecNodeValue::Parenthesis(Box::new(spec_parse_expression(e)->0))),
{
    let t = seq![SpecTokenValue::LeftParenthesis] + e + seq![SpecTokenValue::RightParenthesis];
    assert(t.len() == e.len() + 2);
    assert(t[0] is LeftParenthesis);
    assert(t[t.len() - 1] is RightParenthesis);
    assert(t.subrange(1, t.len() - 1) =~= e);
    assert(spec_parse_between_parenthesis_expression(t) == Some(
        SpecNodeValue::Parenthesis(Box::new(spec_parse_expression(e)->0)),
    ));
}

/// The unary-minus production never matches a minus in front of a remainder
/// of two or more tokens that does not start with a left parenthesis; such
/// slices are left to the binary productions.
pub proof fn lemma_negative_rejects_wide_remainder(t: Seq<SpecTokenValue>)
    requires
        t.len() > 2,
        t[0] is MinusOp,
        !(t[1] is LeftParenthesis),
    ensures
        spec_parse_negative(t) is None,
{
}

/// An empty token sequence parses to the default number leaf with the
/// literal text zero, so every production that recurses into a vacant
/// sub-slice sees that leaf.
pub proof fn lemma_empty_parses_to_zero()
    ensures
        spec_parse_expression(Seq::<SpecTokenValue>::empty()) == Some(
            SpecNodeValue::Number("0"@),
        ),
{
    let t = Seq::<SpecTokenValue>::empty();
    assert(spec_scan_add(t, 0, 0) is None);
    assert(spec_scan_substract(t, -1, 0) is None);
    assert(spec_scan_multiply(t, 0, 0) is None);
    assert(spec_scan_pow(t, 0, 0) is None);
    assert(spec_scan_divide(t, 0, 0) is None);
    assert(spec_parse_number(t) == Some(SpecNodeValue::Number("0"@)));
    assert(spec_parse_expression(t) == Some(SpecNodeValue::Number("0"@)));
}

} // verus!


