//! Binary operators. Each operator kind carries a static precedence rank:
//! higher ranks bind tighter, and rank zero is reserved as the threshold
//! that admits every operator. A binary expression is one operator kind
//! applied to a chain of two or more operands: runs of the same operator
//! collapse into one chain, so `1 + 2 + 3` is a single addition over three
//! operands.

use vstd::prelude::*;

use crate::diag::Tok;
use crate::expr::Expression;
use crate::expr::SpecExpression;

verus! {

/// A precedence rank; these must start at 1, because the threshold 0 admits
/// every operator.
pub type Precedence = u8;

/// Something with a static precedence rank.
pub trait HasPrecedence {
    /// The rank, mathematically.
    spec fn spec_precedence(&self) -> Precedence;

    /// The rank.
    fn precedence(&self) -> (r: Precedence)
        ensures
            r == self.spec_precedence(),
    ;
}

/// The binary operator kinds.
#[derive(Debug, Clone, Copy, PartialEq, Eq, Structural)]
pub enum BinOp {
    Equals,
    Add,
    Sub,
    Mul,
    Div,
}

impl HasPrecedence for BinOp {
    open spec fn spec_precedence(&self) -> Precedence {
        match self {
            BinOp::Equals => 1,
            BinOp::Add => 2,
            BinOp::Sub => 2,
            BinOp::Mul => 3,
            BinOp::Div => 3,
        }
    }

    fn precedence(&self) -> (r: Precedence) {
        match self {
            BinOp::Equals => 1,
            BinOp::Add => 2,
            BinOp::Sub => 2,
            BinOp::Mul => 3,
            BinOp::Div => 3,
        }
    }
}

/// The spelling of a binary operator, as a token.
pub open spec fn spec_op_tok(op: BinOp) -> Tok {
    match op {
        BinOp::Equals => Tok::OpEquals,
        BinOp::Add => Tok::OpAdd,
        BinOp::Sub => Tok::OpSub,
        BinOp::Mul => Tok::OpMul,
        BinOp::Div => Tok::OpDiv,
    }
}

/// Executable counterpart of `spec_op_tok`.
pub fn op_tok(op: BinOp) -> (r: Tok)
    ensures
        r == spec_op_tok(op),
{
    match op {
        BinOp::Equals => Tok::OpEquals,
        BinOp::Add => Tok::OpAdd,
        BinOp::Sub => Tok::OpSub,
        BinOp::Mul => Tok::OpMul,
        BinOp::Div => Tok::OpDiv,
    }
}

/// Mathematical binary expression: one operator kind over its operand
/// chain, at least two operands long.
pub struct SpecBinExpr {
    pub op: BinOp,
    pub operands: Seq<SpecExpression>,
}

/// A binary expression: one operator kind over its operand chain. A chain
/// holds at least two operands; equal-precedence chains of one operator
/// associate left to right.
#[derive(Debug, PartialEq, Eq)]
pub enum BinExpr {
    Equals(Vec<Expression>),
    Add(Vec<Expression>),
    Sub(Vec<Expression>),
    Mul(Vec<Expression>),
    Div(Vec<Expression>),
}

} // verus!
