//! The binary operators that remain in a tree once the surface forms have
//! been rewritten.

use vstd::prelude::*;

verus! {

/// A binary operator of the tree. Compound assignments, unary operators,
/// `!=`, `>`, `<==`, `>==`, `&&` and `||` are rewritten by the parser into
/// these.
#[derive(Debug, Clone, Copy, PartialEq, Eq, Structural)]
pub enum BinaryOperator {
    Add,
    Sub,
    Mul,
    Div,
    Rem,
    Power,
    Root,
    BitAnd,
    BitXor,
    BitOr,
    LShift,
    RShift,
    Equal,
    Less,
    Assign,
    ChangeMin,
    ChangeMax,
    Exchange,
}

} // verus!
