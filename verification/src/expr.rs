//! Expressions and the precedence engine. The engine is parameterized by a
//! minimum precedence threshold: a binary-operator chain is attempted only
//! when the operator's rank reaches the threshold, its left operand is
//! parsed one rank above the operator — which forbids re-matching the same
//! or a looser operator to the left and so bounds the recursion — and its
//! right side is parsed at the threshold itself. Chain alternatives are
//! tried in ascending rank order, loosest first; when none applies, a
//! function call is tried before a bare variable (both begin with an
//! identifier, the call is strictly longer), then the literals.

use vstd::prelude::*;
use vstd::string::StringSliceAdditionalSpecFns;

use crate::bin_ops::{op_tok, spec_op_tok, BinExpr, BinOp, HasPrecedence, Precedence, SpecBinExpr};
use crate::diag::{
    pick_err, res_full_m, res_m, spec_choice, spec_full, step_pos, Diagnostic, ErrorKind,
    SpecError, Tok,
};
use crate::ident::{spec_ident, Ident, SpecIdent};
use crate::literals::number::{spec_numlit, NumLit};
use crate::literals::string::{spec_stringlit, SpecStringLit, StringLit};
use crate::syntax_elements::{parse_punct, spec_punct};

verus! {

/// Mathematical expression.
pub enum SpecExpression {
    BinExpr(SpecBinExpr),
    FnCall(SpecFnCall),
    Variable(SpecVariable),
    NumLit(NumLit),
    StringLit(SpecStringLit),
}

/// Mathematical function invocation.
pub struct SpecFnCall {
    pub fn_name: SpecIdent,
    pub args: Seq<SpecExpression>,
}

/// Mathematical variable reference.
pub struct SpecVariable(pub SpecIdent);

/// Anything that produces a value.
#[derive(Debug, PartialEq, Eq)]
pub enum Expression {
    BinExpr(Box<BinExpr>),
    FnCall(FnCall),
    Variable(Variable),
    NumLit(NumLit),
    StringLit(StringLit),
}

/// A function invocation: callee name and ordered arguments.
#[derive(Debug, PartialEq, Eq)]
pub struct FnCall {
    pub fn_name: Ident,
    pub args: Vec<Expression>,
}

/// A variable reference.
#[derive(Debug, PartialEq, Eq)]
pub struct Variable(pub Ident);

/// The mathematical value of an expression.
pub open spec fn view_expression(e: Expression) -> SpecExpression
    decreases e,
{
    match e {
        Expression::BinExpr(b) => SpecExpression::BinExpr(view_bin_expr(*b)),
        Expression::FnCall(f) => SpecExpression::FnCall(view_fn_call(f)),
        Expression::Variable(v) => SpecExpression::Variable(SpecVariable(v.0.deep_view())),
        Expression::NumLit(n) => SpecExpression::NumLit(n),
        Expression::StringLit(sl) => SpecExpression::StringLit(sl.deep_view()),
    }
}

/// The mathematical value of a binary expression.
pub open spec fn view_bin_expr(b: BinExpr) -> SpecBinExpr
    decreases b,
{
    match b {
        BinExpr::Equals(v) => SpecBinExpr { op: BinOp::Equals, operands: view_expr_seq(v@) },
        BinExpr::Add(v) => SpecBinExpr { op: BinOp::Add, operands: view_expr_seq(v@) },
        BinExpr::Sub(v) => SpecBinExpr { op: BinOp::Sub, operands: view_expr_seq(v@) },
        BinExpr::Mul(v) => SpecBinExpr { op: BinOp::Mul, operands: view_expr_seq(v@) },
        BinExpr::Div(v) => SpecBinExpr { op: BinOp::Div, operands: view_expr_seq(v@) },
    }
}

/// The mathematical value of a function invocation.
pub open spec fn view_fn_call(f: FnCall) -> SpecFnCall
    decreases f,
{
    SpecFnCall { fn_name: f.fn_name.deep_view(), args: view_expr_seq(f.args@) }
}

/// The mathematical values of a sequence of expressions.
pub open spec fn view_expr_seq(v: Seq<Expression>) -> Seq<SpecExpression>
    decreases v,
{
    if v.len() == 0 {
        seq![]
    } else {
        view_expr_seq(v.drop_last()).push(view_expression(v.last()))
    }
}

/// `view_expr_seq` maps `view_expression` over the sequence, element by
/// element.
pub proof fn lemma_view_expr_seq_index(v: Seq<Expression>)
    ensures
        view_expr_seq(v).len() == v.len(),
        forall|i: int| 0 <= i < v.len() ==> view_expr_seq(v)[i] == view_expression(v[i]),
    decreases v.len(),
{
    if v.len() > 0 {
        lemma_view_expr_seq_index(v.drop_last());
    }
}

impl DeepView for Expression {
    type V = SpecExpression;

    open spec fn deep_view(&self) -> SpecExpression {
        view_expression(*self)
    }
}

impl DeepView for BinExpr {
    type V = SpecBinExpr;

    open spec fn deep_view(&self) -> SpecBinExpr {
        view_bin_expr(*self)
    }
}

impl DeepView for FnCall {
    type V = SpecFnCall;

    open spec fn deep_view(&self) -> SpecFnCall {
        view_fn_call(*self)
    }
}

impl DeepView for Variable {
    type V = SpecVariable;

    open spec fn deep_view(&self) -> SpecVariable {
        SpecVariable(self.0.deep_view())
    }
}

/// On a vector of expressions, the element-wise deep view is
/// `view_expression` of each element.
pub proof fn lemma_view_expr_vec(v: Vec<Expression>)
    ensures
        v.deep_view() == view_expr_seq(v@),
{
    lemma_view_expr_seq_index(v@);
    assert(v.deep_view() =~= view_expr_seq(v@));
}

/// The rank that orders the engine's recursion: lower thresholds may try
/// more operators, so they sit higher.
pub open spec fn expr_rank(p: int) -> int {
    if p < 0 {
        9
    } else if p > 4 {
        1
    } else {
        9 - 2 * p
    }
}

/// Attach a chain's right side: a chain of the same operator extends the
/// operand chain — which makes equal chains left-associative n-ary runs —
/// and anything else becomes the second of two operands.
pub open spec fn spec_combine_chain(op: BinOp, l: SpecExpression, r: SpecExpression) -> SpecBinExpr {
    match r {
        SpecExpression::BinExpr(b) => if b.op == op {
            SpecBinExpr { op, operands: seq![l] + b.operands }
        } else {
            SpecBinExpr { op, operands: seq![l, SpecExpression::BinExpr(b)] }
        },
        _ => SpecBinExpr { op, operands: seq![l, r] },
    }
}

/// One binary-operator chain at threshold `p`: a left operand one rank
/// above the operator, the operator's spelling, and a right side back at
/// `p`.
pub open spec fn spec_chain(s: Seq<u8>, pos: int, op: BinOp, p: int) -> Result<
    (SpecBinExpr, int),
    SpecError,
>
    recommends
        0 <= pos <= s.len(),
    decreases s.len() - pos, 8 - 2 * (op.spec_precedence() as int), 0int,
{
    match spec_expression(s, pos, op.spec_precedence() as int + 1) {
        Err(e) => Err(e),
        Ok((left, p1)) => {
            let p1c = step_pos(pos, p1, s.len() as int);
            match spec_punct(s, p1c, spec_op_tok(op)) {
                Err(e) => Err(e),
                Ok(p2) => match spec_expression(s, step_pos(p1c, p2, s.len() as int), p) {
                    Err(e) => Err(e),
                    Ok((right, p3)) => Ok((spec_combine_chain(op, left, right), p3)),
                },
            }
        },
    }
}

/// The binary-expression rule at threshold `p`: the chains of every
/// operator whose rank reaches `p`, tried in ascending rank order.
pub open spec fn spec_bin_expr(s: Seq<u8>, pos: int, p: int) -> Result<(SpecBinExpr, int), SpecError>
    recommends
        0 <= pos <= s.len(),
    decreases s.len() - pos, expr_rank(p), 0int,
{
    let base = Err(SpecError { kind: ErrorKind::ExpectedExpression, start: pos, end: pos });
    let t3 = if p <= 3 {
        spec_choice(spec_chain(s, pos, BinOp::Mul, p), spec_choice(spec_chain(s, pos, BinOp::Div, p), base))
    } else {
        base
    };
    let t2 = if p <= 2 {
        spec_choice(spec_chain(s, pos, BinOp::Add, p), spec_choice(spec_chain(s, pos, BinOp::Sub, p), t3))
    } else {
        t3
    };
    if p <= 1 {
        spec_choice(spec_chain(s, pos, BinOp::Equals, p), t2)
    } else {
        t2
    }
}

/// The function-call rule: callee name, `(`, comma-separated arguments with
/// no trailing comma, `)`.
pub open spec fn spec_fn_call(s: Seq<u8>, pos: int) -> Result<(SpecFnCall, int), SpecError>
    recommends
        0 <= pos <= s.len(),
    decreases s.len() - pos, 0int, 0int,
{
    match spec_ident(s, pos) {
        Err(e) => Err(e),
        Ok((id, p1)) => {
            let p1c = step_pos(pos, p1, s.len() as int);
            match spec_punct(s, p1c, Tok::LParen) {
                Err(e) => Err(e),
                Ok(p2) => {
                    let p2c = step_pos(p1c, p2, s.len() as int);
                    let (args, p3) = spec_arg_list(s, p2c);
                    match spec_punct(s, step_pos(p1c, p3, s.len() as int), Tok::RParen) {
                        Err(e) => Err(e),
                        Ok(p4) => Ok((SpecFnCall { fn_name: id, args }, p4)),
                    }
                },
            }
        },
    }
}

/// A comma-separated list of arguments, possibly empty, no trailing comma;
/// it cannot fail — where no expression begins, the list ends.
pub open spec fn spec_arg_list(s: Seq<u8>, pos: int) -> (Seq<SpecExpression>, int)
    recommends
        0 <= pos <= s.len(),
    decreases s.len() - pos, 10int, 0int,
{
    if pos >= s.len() {
        // nothing fits at the end of the input
        (seq![], pos)
    } else {
        match spec_expression(s, pos, 0) {
            Err(_) => (seq![], pos),
            Ok((e0, p0)) => {
                let (rest, q) = spec_arg_more(s, step_pos(pos, p0, s.len() as int));
                (seq![e0] + rest, q)
            },
        }
    }
}

/// The continuation of an argument list: pairs of a comma and an
/// expression; a comma that no expression follows is left unconsumed.
pub open spec fn spec_arg_more(s: Seq<u8>, pos: int) -> (Seq<SpecExpression>, int)
    recommends
        0 <= pos <= s.len(),
    decreases s.len() - pos, 11int, 0int,
{
    match spec_punct(s, pos, Tok::Comma) {
        Err(_) => (seq![], pos),
        Ok(p1) => {
            let p1c = step_pos(pos, p1, s.len() as int);
            match spec_expression(s, p1c, 0) {
                // no trailing comma here: the comma stays unconsumed
                Err(_) => (seq![], pos),
                Ok((e, p2)) => {
                    let (rest, q) = spec_arg_more(s, step_pos(p1c, p2, s.len() as int));
                    (seq![e] + rest, q)
                },
            }
        },
    }
}

/// The expression rule at threshold `p`: binary-operator chains first —
/// they can begin with any expression, so they must come first — then a
/// function call, a variable, a numeric literal, a string literal.
pub open spec fn spec_expression(s: Seq<u8>, pos: int, p: int) -> Result<
    (SpecExpression, int),
    SpecError,
>
    recommends
        0 <= pos <= s.len(),
    decreases s.len() - pos, expr_rank(p), 1int,
{
    spec_choice(
        match spec_bin_expr(s, pos, p) {
            Ok((b, q)) => Ok((SpecExpression::BinExpr(b), q)),
            Err(e) => Err(e),
        },
        spec_choice(
            match spec_fn_call(s, pos) {
                Ok((f, q)) => Ok((SpecExpression::FnCall(f), q)),
                Err(e) => Err(e),
            },
            spec_choice(
                match spec_ident(s, pos) {
                    Ok((id, q)) => Ok((SpecExpression::Variable(SpecVariable(id)), q)),
                    Err(e) => Err(e),
                },
                spec_choice(
                    match spec_numlit(s, pos) {
                        Ok((n, q)) => Ok((SpecExpression::NumLit(n), q)),
                        Err(e) => Err(e),
                    },
                    match spec_stringlit(s, pos) {
                        Ok((sl, q)) => Ok((SpecExpression::StringLit(sl), q)),
                        Err(e) => Err(e),
                    },
                ),
            ),
        ),
    )
}

/// A mathematical expression is well formed when every binary chain in it,
/// at every nesting depth, carries at least two operands.
pub open spec fn wf_expr(e: SpecExpression) -> bool
    decreases e,
{
    match e {
        SpecExpression::BinExpr(b) => wf_chain(b),
        SpecExpression::FnCall(f) => wf_expr_seq(f.args),
        _ => true,
    }
}

/// A well-formed chain: at least two operands, each well formed.
pub open spec fn wf_chain(b: SpecBinExpr) -> bool
    decreases b,
{
    b.operands.len() >= 2 && wf_expr_seq(b.operands)
}

/// Every expression of the sequence is well formed.
pub open spec fn wf_expr_seq(v: Seq<SpecExpression>) -> bool
    decreases v,
{
    if v.len() == 0 {
        true
    } else {
        wf_expr_seq(v.drop_last()) && wf_expr(v.last())
    }
}

proof fn lemma_wf_expr_seq_push(v: Seq<SpecExpression>, e: SpecExpression)
    ensures
        wf_expr_seq(v.push(e)) == (wf_expr_seq(v) && wf_expr(e)),
{
    assert(v.push(e).drop_last() =~= v);
}

proof fn lemma_wf_expr_seq_one(e: SpecExpression)
    ensures
        wf_expr_seq(seq![e]) == wf_expr(e),
{
    assert(seq![e].drop_last() =~= Seq::<SpecExpression>::empty());
    assert(wf_expr_seq(Seq::<SpecExpression>::empty()));
    assert(seq![e].last() == e);
}

proof fn lemma_wf_expr_seq_two(a: SpecExpression, b: SpecExpression)
    ensures
        wf_expr_seq(seq![a, b]) == (wf_expr(a) && wf_expr(b)),
{
    assert(seq![a, b].drop_last() =~= seq![a]);
    assert(seq![a, b].last() == b);
    lemma_wf_expr_seq_one(a);
}

proof fn lemma_wf_expr_seq_concat(a: Seq<SpecExpression>, b: Seq<SpecExpression>)
    ensures
        wf_expr_seq(a + b) == (wf_expr_seq(a) && wf_expr_seq(b)),
    decreases b.len(),
{
    if b.len() == 0 {
        assert(a + b =~= a);
    } else {
        lemma_wf_expr_seq_concat(a, b.drop_last());
        lemma_wf_expr_seq_push(a + b.drop_last(), b.last());
        assert((a + b.drop_last()).push(b.last()) =~= a + b);
        assert(b.drop_last().push(b.last()) =~= b);
        lemma_wf_expr_seq_push(b.drop_last(), b.last());
    }
}

#[verifier::rlimit(50)]
proof fn lemma_chain_wf(s: Seq<u8>, pos: int, op: BinOp, p: int)
    ensures
        spec_chain(s, pos, op, p) matches Ok((b, _)) ==> wf_chain(b),
    decreases s.len() - pos, 8 - 2 * (op.spec_precedence() as int), 0int,
{
    match spec_expression(s, pos, op.spec_precedence() as int + 1) {
        Err(_) => {},
        Ok((left, p1)) => {
            lemma_expression_wf(s, pos, op.spec_precedence() as int + 1);
            let p1c = step_pos(pos, p1, s.len() as int);
            match spec_punct(s, p1c, spec_op_tok(op)) {
                Err(_) => {},
                Ok(p2) => {
                    let p2c = step_pos(p1c, p2, s.len() as int);
                    lemma_expression_wf(s, p2c, p);
                    match spec_expression(s, p2c, p) {
                        Err(_) => {},
                        Ok((right, _)) => {
                            lemma_wf_expr_seq_one(left);
                            lemma_wf_expr_seq_two(left, right);
                            match right {
                                SpecExpression::BinExpr(b) => {
                                    if b.op == op {
                                        lemma_wf_expr_seq_concat(seq![left], b.operands);
                                    }
                                },
                                _ => {},
                            }
                        },
                    }
                },
            }
        },
    }
}

proof fn lemma_bin_expr_wf(s: Seq<u8>, pos: int, p: int)
    ensures
        spec_bin_expr(s, pos, p) matches Ok((b, _)) ==> wf_chain(b),
    decreases s.len() - pos, expr_rank(p), 0int,
{
    if p <= 1 {
        lemma_chain_wf(s, pos, BinOp::Equals, p);
    }
    if p <= 2 {
        lemma_chain_wf(s, pos, BinOp::Add, p);
        lemma_chain_wf(s, pos, BinOp::Sub, p);
    }
    if p <= 3 {
        lemma_chain_wf(s, pos, BinOp::Mul, p);
        lemma_chain_wf(s, pos, BinOp::Div, p);
    }
}

proof fn lemma_fn_call_wf(s: Seq<u8>, pos: int)
    ensures
        spec_fn_call(s, pos) matches Ok((f, _)) ==> wf_expr_seq(f.args),
    decreases s.len() - pos, 0int, 0int,
{
    match spec_ident(s, pos) {
        Err(_) => {},
        Ok((_, p1)) => {
            let p1c = step_pos(pos, p1, s.len() as int);
            match spec_punct(s, p1c, Tok::LParen) {
                Err(_) => {},
                Ok(p2) => {
                    let p2c = step_pos(p1c, p2, s.len() as int);
                    lemma_arg_list_wf(s, p2c);
                },
            }
        },
    }
}

proof fn lemma_arg_list_wf(s: Seq<u8>, pos: int)
    ensures
        wf_expr_seq(spec_arg_list(s, pos).0),
    decreases s.len() - pos, 10int, 0int,
{
    if pos >= s.len() {
    } else {
        match spec_expression(s, pos, 0) {
            Err(_) => {},
            Ok((e0, p0)) => {
                lemma_expression_wf(s, pos, 0);
                let p0c = step_pos(pos, p0, s.len() as int);
                lemma_arg_more_wf(s, p0c);
                lemma_wf_expr_seq_one(e0);
                lemma_wf_expr_seq_concat(seq![e0], spec_arg_more(s, p0c).0);
            },
        }
    }
}

proof fn lemma_arg_more_wf(s: Seq<u8>, pos: int)
    ensures
        wf_expr_seq(spec_arg_more(s, pos).0),
    decreases s.len() - pos, 11int, 0int,
{
    match spec_punct(s, pos, Tok::Comma) {
        Err(_) => {},
        Ok(p1) => {
            let p1c = step_pos(pos, p1, s.len() as int);
            match spec_expression(s, p1c, 0) {
                Err(_) => {},
                Ok((e, p2)) => {
                    lemma_expression_wf(s, p1c, 0);
                    let p2c = step_pos(p1c, p2, s.len() as int);
                    lemma_arg_more_wf(s, p2c);
                    lemma_wf_expr_seq_one(e);
                    lemma_wf_expr_seq_concat(seq![e], spec_arg_more(s, p2c).0);
                },
            }
        },
    }
}

/// Law: every binary-operator chain that the expression grammar yields
/// carries at least two operands, at every nesting depth — n-ary chains
/// arise only by extending a chain, never by shrinking one.
pub proof fn lemma_expression_wf(s: Seq<u8>, pos: int, p: int)
    ensures
        spec_expression(s, pos, p) matches Ok((e, _)) ==> wf_expr(e),
    decreases s.len() - pos, expr_rank(p), 1int,
{
    lemma_bin_expr_wf(s, pos, p);
    lemma_fn_call_wf(s, pos);
}

impl BinExpr {
    /// The operator kind of this chain.
    pub fn op(&self) -> (r: BinOp)
        ensures
            r == self.deep_view().op,
    {
        match self {
            BinExpr::Equals(_) => BinOp::Equals,
            BinExpr::Add(_) => BinOp::Add,
            BinExpr::Sub(_) => BinOp::Sub,
            BinExpr::Mul(_) => BinOp::Mul,
            BinExpr::Div(_) => BinOp::Div,
        }
    }

    /// The operand chain, surrendered.
    pub fn into_operands(self) -> (r: Vec<Expression>)
        ensures
            view_expr_seq(r@) == self.deep_view().operands,
    {
        match self {
            BinExpr::Equals(v) => v,
            BinExpr::Add(v) => v,
            BinExpr::Sub(v) => v,
            BinExpr::Mul(v) => v,
            BinExpr::Div(v) => v,
        }
    }

    /// Build the chain of `op` over `operands`.
    pub fn from_parts(op: BinOp, operands: Vec<Expression>) -> (r: BinExpr)
        ensures
            r.deep_view() == (SpecBinExpr { op, operands: view_expr_seq(operands@) }),
    {
        match op {
            BinOp::Equals => BinExpr::Equals(operands),
            BinOp::Add => BinExpr::Add(operands),
            BinOp::Sub => BinExpr::Sub(operands),
            BinOp::Mul => BinExpr::Mul(operands),
            BinOp::Div => BinExpr::Div(operands),
        }
    }

    /// Parse a binary expression at `pos`, trying the chains of every
    /// operator whose rank reaches `min_prec`, loosest first.
    pub fn parse_at(s: &[u8], pos: usize, min_prec: Precedence) -> (r: Result<
        (BinExpr, usize),
        Diagnostic,
    >)
        requires
            pos <= s@.len(),
        ensures
            res_m(r, spec_bin_expr(s@, pos as int, min_prec as int)),
            r matches Ok((_, p)) ==> pos < p && p <= s@.len(),
        decreases s@.len() - pos, expr_rank(min_prec as int), 0int,
    {
        let e1 = if min_prec <= 1 {
            match try_chain(s, pos, BinOp::Equals, min_prec) {
                Ok(v) => { return Ok(v) },
                Err(e) => Some(e),
            }
        } else {
            None
        };
        let (e2, e3) = if min_prec <= 2 {
            let a = match try_chain(s, pos, BinOp::Add, min_prec) {
                Ok(v) => { return Ok(v) },
                Err(e) => e,
            };
            let b = match try_chain(s, pos, BinOp::Sub, min_prec) {
                Ok(v) => { return Ok(v) },
                Err(e) => e,
            };
            (Some(a), Some(b))
        } else {
            (None, None)
        };
        let (e4, e5) = if min_prec <= 3 {
            let a = match try_chain(s, pos, BinOp::Mul, min_prec) {
                Ok(v) => { return Ok(v) },
                Err(e) => e,
            };
            let b = match try_chain(s, pos, BinOp::Div, min_prec) {
                Ok(v) => { return Ok(v) },
                Err(e) => e,
            };
            (Some(a), Some(b))
        } else {
            (None, None)
        };
        let mut err = Diagnostic { kind: ErrorKind::ExpectedExpression, start: pos, end: pos };
        match e5 {
            Some(e) => { err = pick_err(e, err) },
            None => {},
        }
        match e4 {
            Some(e) => { err = pick_err(e, err) },
            None => {},
        }
        match e3 {
            Some(e) => { err = pick_err(e, err) },
            None => {},
        }
        match e2 {
            Some(e) => { err = pick_err(e, err) },
            None => {},
        }
        match e1 {
            Some(e) => { err = pick_err(e, err) },
            None => {},
        }
        Err(err)
    }

    /// Parse a whole input as one binary expression, every operator
    /// admitted.
    pub fn parse(input: &str) -> (r: Result<BinExpr, Diagnostic>)
        ensures
            res_full_m(
                r,
                spec_full(
                    spec_bin_expr(input.spec_bytes(), 0, 0),
                    input.spec_bytes().len() as int,
                ),
            ),
    {
        let s = input.as_bytes();
        match BinExpr::parse_at(s, 0, 0) {
            Ok((v, p)) => {
                if p == s.len() {
                    Ok(v)
                } else {
                    Err(Diagnostic { kind: ErrorKind::TrailingInput, start: p, end: s.len() })
                }
            },
            Err(d) => Err(d),
        }
    }
}

/// Attach a chain's right side, executable counterpart of
/// `spec_combine_chain`.
fn combine_chain(op: BinOp, left: Expression, right: Expression) -> (r: BinExpr)
    ensures
        r.deep_view() == spec_combine_chain(op, left.deep_view(), right.deep_view()),
{
    match right {
        Expression::BinExpr(bx) => {
            let b = *bx;
            if b.op() == op {
                let mut v = b.into_operands();
                let ghost before = v@;
                v.insert(0, left);
                proof {
                    lemma_view_expr_seq_index(v@);
                    lemma_view_expr_seq_index(before);
                    assert(view_expr_seq(v@) =~= seq![left.deep_view()] + view_expr_seq(before));
                }
                BinExpr::from_parts(op, v)
            } else {
                let other = Expression::BinExpr(Box::new(b));
                two_operands(op, left, other)
            }
        },
        _ => two_operands(op, left, right),
    }
}

/// A chain of exactly two operands.
fn two_operands(op: BinOp, left: Expression, right: Expression) -> (r: BinExpr)
    ensures
        r.deep_view() == (SpecBinExpr {
            op,
            operands: seq![left.deep_view(), right.deep_view()],
        }),
{
    let mut v: Vec<Expression> = Vec::new();
    v.push(left);
    v.push(right);
    proof {
        lemma_view_expr_seq_index(v@);
        assert(view_expr_seq(v@) =~= seq![left.deep_view(), right.deep_view()]);
    }
    BinExpr::from_parts(op, v)
}

/// One binary-operator chain attempt, executable counterpart of
/// `spec_chain`.
fn try_chain(s: &[u8], pos: usize, op: BinOp, min_prec: Precedence) -> (r: Result<
    (BinExpr, usize),
    Diagnostic,
>)
    requires
        pos <= s@.len(),
    ensures
        res_m(r, spec_chain(s@, pos as int, op, min_prec as int)),
        r matches Ok((_, p)) ==> pos < p && p <= s@.len(),
    decreases s@.len() - pos, 8 - 2 * (op.spec_precedence() as int), 0int,
{
    let above = op.precedence() + 1;
    let (left, p1) = match Expression::parse_at(s, pos, above) {
        Ok(v) => v,
        Err(e) => { return Err(e) },
    };
    let p2 = match parse_punct(s, p1, op_tok(op)) {
        Ok(p) => p,
        Err(e) => { return Err(e) },
    };
    let (right, p3) = match Expression::parse_at(s, p2, min_prec) {
        Ok(v) => v,
        Err(e) => { return Err(e) },
    };
    Ok((combine_chain(op, left, right), p3))
}

impl Expression {
    /// Parse an expression at `pos`, admitting binary operators whose rank
    /// reaches `min_prec`.
    #[verifier::rlimit(30)]
    pub fn parse_at(s: &[u8], pos: usize, min_prec: Precedence) -> (r: Result<
        (Expression, usize),
        Diagnostic,
    >)
        requires
            pos <= s@.len(),
        ensures
            res_m(r, spec_expression(s@, pos as int, min_prec as int)),
            r matches Ok((_, p)) ==> pos < p && p <= s@.len(),
        decreases s@.len() - pos, expr_rank(min_prec as int), 1int,
    {
        let e1 = match BinExpr::parse_at(s, pos, min_prec) {
            Ok((b, p)) => { return Ok((Expression::BinExpr(Box::new(b)), p)) },
            Err(e) => e,
        };
        let e2 = match FnCall::parse_at(s, pos) {
            Ok((f, p)) => { return Ok((Expression::FnCall(f), p)) },
            Err(e) => e,
        };
        let e3 = match Variable::parse_at(s, pos) {
            Ok((v, p)) => { return Ok((Expression::Variable(v), p)) },
            Err(e) => e,
        };
        let e4 = match NumLit::parse_at(s, pos) {
            Ok((n, p)) => { return Ok((Expression::NumLit(n), p)) },
            Err(e) => e,
        };
        match StringLit::parse_at(s, pos) {
            Ok((sl, p)) => Ok((Expression::StringLit(sl), p)),
            Err(e5) => Err(pick_err(e1, pick_err(e2, pick_err(e3, pick_err(e4, e5))))),
        }
    }

    /// Parse a whole input as one expression, every operator admitted.
    pub fn parse(input: &str) -> (r: Result<Expression, Diagnostic>)
        ensures
            res_full_m(
                r,
                spec_full(
                    spec_expression(input.spec_bytes(), 0, 0),
                    input.spec_bytes().len() as int,
                ),
            ),
    {
        let s = input.as_bytes();
        match Expression::parse_at(s, 0, 0) {
            Ok((v, p)) => {
                if p == s.len() {
                    Ok(v)
                } else {
                    Err(Diagnostic { kind: ErrorKind::TrailingInput, start: p, end: s.len() })
                }
            },
            Err(d) => Err(d),
        }
    }
}

impl FnCall {
    /// Parse a function call at `pos`.
    pub fn parse_at(s: &[u8], pos: usize) -> (r: Result<(FnCall, usize), Diagnostic>)
        requires
            pos <= s@.len(),
        ensures
            res_m(r, spec_fn_call(s@, pos as int)),
            r matches Ok((_, p)) ==> pos < p && p <= s@.len(),
        decreases s@.len() - pos, 0int, 0int,
    {
        let (id, p1) = match Ident::parse_at(s, pos) {
            Ok(v) => v,
            Err(e) => { return Err(e) },
        };
        let p2 = match parse_punct(s, p1, Tok::LParen) {
            Ok(p) => p,
            Err(e) => { return Err(e) },
        };
        let mut args: Vec<Expression> = Vec::new();
        let mut cur: usize = p2;
        match Expression::parse_at(s, p2, 0) {
            Err(_) => {
                proof {
                    assert(args.deep_view() =~= Seq::<SpecExpression>::empty());
                }
            },
            Ok((a0, q0)) => {
                args.push(a0);
                cur = q0;
                proof {
                    assert(args.deep_view() =~= seq![a0.deep_view()]);
                }
                loop
                    invariant_except_break
                        pos < p2 <= s@.len(),
                        p2 < cur <= s@.len(),
                        ({
                            let full = spec_arg_list(s@, p2 as int);
                            let more = spec_arg_more(s@, cur as int);
                            full.0 == args.deep_view() + more.0 && full.1 == more.1
                        }),
                    ensures
                        p2 <= cur <= s@.len(),
                        pos < cur,
                        spec_arg_list(s@, p2 as int).0 == args.deep_view(),
                        spec_arg_list(s@, p2 as int).1 == cur as int,
                    decreases s@.len() - cur,
                {
                    let c1 = match parse_punct(s, cur, Tok::Comma) {
                        Err(_) => {
                            proof {
                                assert(args.deep_view() + Seq::<SpecExpression>::empty()
                                    =~= args.deep_view());
                            }
                            break ;
                        },
                        Ok(c1) => c1,
                    };
                    match Expression::parse_at(s, c1, 0) {
                        Err(_) => {
                            // the comma is left unconsumed: no trailing comma
                            proof {
                                assert(args.deep_view() + Seq::<SpecExpression>::empty()
                                    =~= args.deep_view());
                            }
                            break ;
                        },
                        Ok((a, q)) => {
                            let ghost before = args.deep_view();
                            args.push(a);
                            proof {
                                let rest = spec_arg_more(s@, q as int);
                                assert(args.deep_view() =~= before.push(a.deep_view()));
                                assert(before.push(a.deep_view()) + rest.0 =~= before + (seq![
                                    a.deep_view(),
                                ] + rest.0));
                            }
                            cur = q;
                        },
                    }
                }
            },
        }
        match parse_punct(s, cur, Tok::RParen) {
            Err(e) => Err(e),
            Ok(p4) => {
                proof {
                    lemma_view_expr_vec(args);
                }
                Ok((FnCall { fn_name: id, args }, p4))
            },
        }
    }

    /// Parse a whole input as one function call.
    pub fn parse(input: &str) -> (r: Result<FnCall, Diagnostic>)
        ensures
            res_full_m(
                r,
                spec_full(spec_fn_call(input.spec_bytes(), 0), input.spec_bytes().len() as int),
            ),
    {
        let s = input.as_bytes();
        match FnCall::parse_at(s, 0) {
            Ok((v, p)) => {
                if p == s.len() {
                    Ok(v)
                } else {
                    Err(Diagnostic { kind: ErrorKind::TrailingInput, start: p, end: s.len() })
                }
            },
            Err(d) => Err(d),
        }
    }
}

impl Variable {
    /// Parse a variable reference at `pos`: a bare identifier.
    pub fn parse_at(s: &[u8], pos: usize) -> (r: Result<(Variable, usize), Diagnostic>)
        requires
            pos <= s@.len(),
        ensures
            match r {
                Ok((v, p)) => spec_ident(s@, pos as int) == Ok::<(SpecIdent, int), SpecError>(
                    (v.0.deep_view(), p as int),
                ) && pos < p && p <= s@.len(),
                Err(d) => spec_ident(s@, pos as int) == Err::<(SpecIdent, int), SpecError>(d@),
            },
    {
        match Ident::parse_at(s, pos) {
            Ok((id, p)) => Ok((Variable(id), p)),
            Err(e) => Err(e),
        }
    }

    /// Parse a whole input as one variable reference.
    pub fn parse(input: &str) -> (r: Result<Variable, Diagnostic>)
        ensures
            match r {
                Ok(v) => spec_full(
                    spec_ident(input.spec_bytes(), 0),
                    input.spec_bytes().len() as int,
                ) == Ok::<SpecIdent, SpecError>(v.0.deep_view()),
                Err(d) => spec_full(
                    spec_ident(input.spec_bytes(), 0),
                    input.spec_bytes().len() as int,
                ) == Err::<SpecIdent, SpecError>(d@),
            },
    {
        let s = input.as_bytes();
        match Variable::parse_at(s, 0) {
            Ok((v, p)) => {
                if p == s.len() {
                    Ok(v)
                } else {
                    Err(Diagnostic { kind: ErrorKind::TrailingInput, start: p, end: s.len() })
                }
            },
            Err(d) => Err(d),
        }
    }
}

} // verus!
