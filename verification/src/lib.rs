//! Recursive-descent construction of an arithmetic abstract syntax tree from a
//! flat token sequence.
//!
//! Operator precedence is not table-driven: the dispatcher tries the grammar
//! productions in one fixed order and keeps the first match, so the order of
//! attempts is the whole precedence policy.

pub mod ast;
pub mod laws;
pub mod parser;
