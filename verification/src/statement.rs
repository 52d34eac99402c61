//! Statements and declarations: `let` bindings, function definitions,
//! struct definitions, code blocks, and the top-level statement with its
//! optional `pub` modifier. Struct definitions are file-scope only; inside
//! a block the only statement form is a semicolon-terminated `let`.

use vstd::prelude::*;
use vstd::string::StringSliceAdditionalSpecFns;

use crate::diag::{
    pick_err, res_full_m, res_m, spec_choice, spec_full, step_pos, Diagnostic, ErrorKind,
    SpecError, Tok,
};
use crate::expr::{spec_expression, Expression, SpecExpression};
use crate::ident::{
    spec_ident, spec_ident_with_optional_type, spec_ident_with_type, Ident, IdentWithOptionalType,
    IdentWithType, SpecIdent, SpecIdentWithOptionalType, SpecIdentWithType,
};
use crate::scan::{skip_ws, spec_skip_ws};
use crate::syntax_elements::{parse_keyword, parse_punct, spec_keyword, spec_punct};
use crate::type_literal::{spec_type_literal, SpecTypeLiteral, TypeLiteral};

verus! {

/// Mathematical value of something optionally marked `pub`.
pub struct SpecMaybePublic<V> {
    pub is_pub: bool,
    pub inner: V,
}

/// Something optionally marked `pub`.
#[derive(Debug, PartialEq, Eq)]
pub struct MaybePublic<T> {
    pub is_pub: bool,
    pub inner: T,
}

impl<T: DeepView> DeepView for MaybePublic<T> {
    type V = SpecMaybePublic<T::V>;

    open spec fn deep_view(&self) -> SpecMaybePublic<T::V> {
        SpecMaybePublic { is_pub: self.is_pub, inner: self.inner.deep_view() }
    }
}

/// Mathematical `let` binding.
pub struct SpecLet {
    pub is_mut: bool,
    pub left: SpecIdentWithOptionalType,
    pub right: SpecExpression,
}

/// A binding declaration: mutability, binding site, initializer. The rule
/// consumes no trailing semicolon; termination is its caller's business.
#[derive(Debug, PartialEq, Eq)]
pub struct Let {
    pub is_mut: bool,
    pub left: IdentWithOptionalType,
    pub right: Expression,
}

impl DeepView for Let {
    type V = SpecLet;

    open spec fn deep_view(&self) -> SpecLet {
        SpecLet {
            is_mut: self.is_mut,
            left: self.left.deep_view(),
            right: self.right.deep_view(),
        }
    }
}

/// Mathematical block-interior statement.
pub enum SpecStatement {
    Let(SpecLet),
}

/// A non-yielding action inside a block: a semicolon-terminated `let`.
#[derive(Debug, PartialEq, Eq)]
pub enum Statement {
    Let(Let),
}

impl DeepView for Statement {
    type V = SpecStatement;

    open spec fn deep_view(&self) -> SpecStatement {
        match self {
            Statement::Let(l) => SpecStatement::Let(l.deep_view()),
        }
    }
}

/// Mathematical code block.
pub struct SpecCodeScope {
    pub statements: Seq<SpecStatement>,
    pub expr: SpecExpression,
}

/// A brace-delimited block: statements, then a mandatory tail expression
/// whose value is the block's value.
#[derive(Debug, PartialEq, Eq)]
pub struct CodeScope {
    pub statements: Vec<Statement>,
    pub expr: Expression,
}

impl DeepView for CodeScope {
    type V = SpecCodeScope;

    open spec fn deep_view(&self) -> SpecCodeScope {
        SpecCodeScope { statements: self.statements.deep_view(), expr: self.expr.deep_view() }
    }
}

/// Mathematical function definition.
pub struct SpecFnDef {
    pub name: SpecIdent,
    pub params: Seq<SpecIdentWithType>,
    pub return_type: SpecTypeLiteral,
    pub body: SpecCodeScope,
}

/// A function definition: name, typed parameters (no trailing comma), a
/// mandatory arrow and return type, and a body block.
#[derive(Debug, PartialEq, Eq)]
pub struct FnDef {
    pub name: Ident,
    pub params: Vec<IdentWithType>,
    pub return_type: TypeLiteral,
    pub body: CodeScope,
}

impl DeepView for FnDef {
    type V = SpecFnDef;

    open spec fn deep_view(&self) -> SpecFnDef {
        SpecFnDef {
            name: self.name.deep_view(),
            params: self.params.deep_view(),
            return_type: self.return_type.deep_view(),
            body: self.body.deep_view(),
        }
    }
}

/// Mathematical struct definition.
pub struct SpecStructDef {
    pub name: SpecIdent,
    pub fields: Seq<SpecIdentWithType>,
}

/// A struct definition: name and typed fields, a trailing comma allowed.
#[derive(Debug, PartialEq, Eq)]
pub struct StructDef {
    pub name: Ident,
    pub fields: Vec<IdentWithType>,
}

impl DeepView for StructDef {
    type V = SpecStructDef;

    open spec fn deep_view(&self) -> SpecStructDef {
        SpecStructDef { name: self.name.deep_view(), fields: self.fields.deep_view() }
    }
}

/// Mathematical file-level declaration.
pub enum SpecRawTopLevelStatement {
    Let(SpecLet),
    FnDef(SpecFnDef),
    StructDef(SpecStructDef),
}

/// The statements of a file's outermost scope: a semicolon-terminated
/// `let`, a function definition, or a struct definition, tried in that
/// order.
#[derive(Debug, PartialEq, Eq)]
pub enum RawTopLevelStatement {
    Let(Let),
    FnDef(FnDef),
    StructDef(StructDef),
}

impl DeepView for RawTopLevelStatement {
    type V = SpecRawTopLevelStatement;

    open spec fn deep_view(&self) -> SpecRawTopLevelStatement {
        match self {
            RawTopLevelStatement::Let(l) => SpecRawTopLevelStatement::Let(l.deep_view()),
            RawTopLevelStatement::FnDef(f) => SpecRawTopLevelStatement::FnDef(f.deep_view()),
            RawTopLevelStatement::StructDef(d) => SpecRawTopLevelStatement::StructDef(
                d.deep_view(),
            ),
        }
    }
}

/// A file-level declaration with its visibility.
pub type TopLevelStatement = MaybePublic<RawTopLevelStatement>;

/// The optional padded `mut` modifier: whether it is present, and the
/// cursor after it (unchanged when absent).
pub open spec fn spec_mut_opt(s: Seq<u8>, pos: int) -> (bool, int)
    recommends
        0 <= pos <= s.len(),
{
    match spec_keyword(s, spec_skip_ws(s, pos), Tok::KwMut) {
        Ok(q) => (true, spec_skip_ws(s, q)),
        Err(_) => (false, pos),
    }
}

/// The `let` rule: the keyword, an optional `mut`, a padded binding site,
/// `=`, an initializer expression. No trailing semicolon.
pub open spec fn spec_let(s: Seq<u8>, pos: int) -> Result<(SpecLet, int), SpecError>
    recommends
        0 <= pos <= s.len(),
{
    match spec_keyword(s, pos, Tok::KwLet) {
        Err(e) => Err(e),
        Ok(p1) => {
            let (is_mut, p2) = spec_mut_opt(s, p1);
            let p3 = spec_skip_ws(s, p2);
            match spec_ident_with_optional_type(s, p3) {
                Err(e) => Err(e),
                Ok((left, p4)) => match spec_punct(s, p4, Tok::Assign) {
                    Err(e) => Err(e),
                    Ok(p5) => match spec_expression(s, p5, 0) {
                        Err(e) => Err(e),
                        Ok((right, p6)) => Ok((SpecLet { is_mut, left, right }, p6)),
                    },
                },
            }
        },
    }
}

/// The block-interior statement rule: a `let`, always semicolon-terminated.
pub open spec fn spec_statement(s: Seq<u8>, pos: int) -> Result<(SpecStatement, int), SpecError>
    recommends
        0 <= pos <= s.len(),
{
    match spec_let(s, pos) {
        Err(e) => Err(e),
        Ok((l, p)) => match spec_punct(s, p, Tok::Semicolon) {
            Err(e) => Err(e),
            Ok(q) => Ok((SpecStatement::Let(l), q)),
        },
    }
}

/// A run of statements; it cannot fail — where no statement begins, the run
/// ends.
pub open spec fn spec_stmt_list(s: Seq<u8>, pos: int) -> (Seq<SpecStatement>, int)
    recommends
        0 <= pos <= s.len(),
    decreases s.len() - pos,
{
    if pos >= s.len() {
        // nothing fits at the end of the input
        (seq![], pos)
    } else {
        match spec_statement(s, pos) {
            Err(_) => (seq![], pos),
            Ok((st, q)) => {
                let (rest, e) = spec_stmt_list(s, step_pos(pos, q, s.len() as int));
                (seq![st] + rest, e)
            },
        }
    }
}

/// The code-block rule: `{`, statements, a mandatory tail expression, `}`.
pub open spec fn spec_code_scope(s: Seq<u8>, pos: int) -> Result<(SpecCodeScope, int), SpecError>
    recommends
        0 <= pos <= s.len(),
{
    match spec_punct(s, pos, Tok::LCurly) {
        Err(e) => Err(e),
        Ok(p1) => {
            let (stmts, p2) = spec_stmt_list(s, p1);
            match spec_expression(s, p2, 0) {
                Err(e) => Err(e),
                Ok((expr, p3)) => match spec_punct(s, p3, Tok::RCurly) {
                    Err(e) => Err(e),
                    Ok(p4) => Ok((SpecCodeScope { statements: stmts, expr }, p4)),
                },
            }
        },
    }
}

/// A comma-separated list of typed parameters, possibly empty, no trailing
/// comma; it cannot fail — where no parameter begins, the list ends.
pub open spec fn spec_param_list(s: Seq<u8>, pos: int) -> (Seq<SpecIdentWithType>, int)
    recommends
        0 <= pos <= s.len(),
{
    if pos >= s.len() {
        // nothing fits at the end of the input
        (seq![], pos)
    } else {
        match spec_ident_with_type(s, pos) {
            Err(_) => (seq![], pos),
            Ok((v0, p0)) => {
                let (rest, q) = spec_param_more(s, step_pos(pos, p0, s.len() as int));
                (seq![v0] + rest, q)
            },
        }
    }
}

/// The continuation of a parameter list: pairs of a comma and a parameter;
/// a comma that no parameter follows is left unconsumed.
pub open spec fn spec_param_more(s: Seq<u8>, pos: int) -> (Seq<SpecIdentWithType>, int)
    recommends
        0 <= pos <= s.len(),
    decreases s.len() - pos,
{
    match spec_punct(s, pos, Tok::Comma) {
        Err(_) => (seq![], pos),
        Ok(p1) => {
            let p1c = step_pos(pos, p1, s.len() as int);
            match spec_ident_with_type(s, p1c) {
                // no trailing comma here: the comma stays unconsumed
                Err(_) => (seq![], pos),
                Ok((v, p2)) => {
                    let (rest, q) = spec_param_more(s, step_pos(p1c, p2, s.len() as int));
                    (seq![v] + rest, q)
                },
            }
        },
    }
}

/// A comma-separated list of typed fields, possibly empty, a trailing comma
/// allowed; it cannot fail — where no field begins, the list ends.
pub open spec fn spec_field_list(s: Seq<u8>, pos: int) -> (Seq<SpecIdentWithType>, int)
    recommends
        0 <= pos <= s.len(),
{
    if pos >= s.len() {
        // nothing fits at the end of the input
        (seq![], pos)
    } else {
        match spec_ident_with_type(s, pos) {
            Err(_) => (seq![], pos),
            Ok((v0, p0)) => {
                let (rest, q) = spec_field_more(s, step_pos(pos, p0, s.len() as int));
                (seq![v0] + rest, q)
            },
        }
    }
}

/// The continuation of a field list: pairs of a comma and a field, and
/// possibly one trailing comma, which is kept when no field follows it.
pub open spec fn spec_field_more(s: Seq<u8>, pos: int) -> (Seq<SpecIdentWithType>, int)
    recommends
        0 <= pos <= s.len(),
    decreases s.len() - pos,
{
    match spec_punct(s, pos, Tok::Comma) {
        Err(_) => (seq![], pos),
        Ok(p1) => {
            let p1c = step_pos(pos, p1, s.len() as int);
            match spec_ident_with_type(s, p1c) {
                // the comma was a trailing one
                Err(_) => (seq![], p1),
                Ok((v, p2)) => {
                    let (rest, q) = spec_field_more(s, step_pos(p1c, p2, s.len() as int));
                    (seq![v] + rest, q)
                },
            }
        },
    }
}

/// The function-definition rule: `fn`, name, parenthesized parameters, a
/// mandatory `->` return type, and a body block.
pub open spec fn spec_fn_def(s: Seq<u8>, pos: int) -> Result<(SpecFnDef, int), SpecError>
    recommends
        0 <= pos <= s.len(),
{
    match spec_keyword(s, pos, Tok::KwFn) {
        Err(e) => Err(e),
        Ok(p1) => {
            let p2 = spec_skip_ws(s, p1);
            match spec_ident(s, p2) {
                Err(e) => Err(e),
                Ok((name, p3)) => match spec_punct(s, p3, Tok::LParen) {
                    Err(e) => Err(e),
                    Ok(p4) => {
                        let (params, p5) = spec_param_list(s, p4);
                        match spec_punct(s, p5, Tok::RParen) {
                            Err(e) => Err(e),
                            Ok(p6) => match spec_punct(s, p6, Tok::Arrow) {
                                Err(e) => Err(e),
                                Ok(p7) => match spec_type_literal(s, p7) {
                                    Err(e) => Err(e),
                                    Ok((rt, p8)) => match spec_code_scope(s, p8) {
                                        Err(e) => Err(e),
                                        Ok((body, p9)) => Ok(
                                            (
                                                SpecFnDef {
                                                    name,
                                                    params,
                                                    return_type: rt,
                                                    body,
                                                },
                                                p9,
                                            ),
                                        ),
                                    },
                                },
                            },
                        }
                    },
                },
            }
        },
    }
}

/// The struct-definition rule: `struct`, a padded name, and braced fields
/// with a trailing comma allowed.
pub open spec fn spec_struct_def(s: Seq<u8>, pos: int) -> Result<(SpecStructDef, int), SpecError>
    recommends
        0 <= pos <= s.len(),
{
    match spec_keyword(s, pos, Tok::KwStruct) {
        Err(e) => Err(e),
        Ok(p1) => {
            let p2 = spec_skip_ws(s, p1);
            match spec_ident(s, p2) {
                Err(e) => Err(e),
                Ok((name, p3)) => match spec_punct(s, p3, Tok::LCurly) {
                    Err(e) => Err(e),
                    Ok(p4) => {
                        let (fields, p5) = spec_field_list(s, p4);
                        match spec_punct(s, p5, Tok::RCurly) {
                            Err(e) => Err(e),
                            Ok(p6) => Ok((SpecStructDef { name, fields }, p6)),
                        }
                    },
                },
            }
        },
    }
}

/// The file-level declaration rule, surrounded by whitespace: a
/// semicolon-terminated `let`, a function definition, or a struct
/// definition, tried in that order.
pub open spec fn spec_raw_top_level_statement(s: Seq<u8>, pos: int) -> Result<
    (SpecRawTopLevelStatement, int),
    SpecError,
>
    recommends
        0 <= pos <= s.len(),
{
    let q0 = spec_skip_ws(s, pos);
    let alt_let = match spec_let(s, q0) {
        Err(e) => Err(e),
        Ok((l, p)) => match spec_punct(s, p, Tok::Semicolon) {
            Err(e) => Err(e),
            Ok(q) => Ok((SpecRawTopLevelStatement::Let(l), q)),
        },
    };
    let r = spec_choice(
        alt_let,
        spec_choice(
            match spec_fn_def(s, q0) {
                Ok((f, p)) => Ok((SpecRawTopLevelStatement::FnDef(f), p)),
                Err(e) => Err(e),
            },
            match spec_struct_def(s, q0) {
                Ok((d, p)) => Ok((SpecRawTopLevelStatement::StructDef(d), p)),
                Err(e) => Err(e),
            },
        ),
    );
    match r {
        Ok((v, p)) => Ok((v, spec_skip_ws(s, p))),
        Err(e) => Err(e),
    }
}

/// The top-level statement rule: an optional `pub`, then the declaration.
pub open spec fn spec_top_level_statement(s: Seq<u8>, pos: int) -> Result<
    (SpecMaybePublic<SpecRawTopLevelStatement>, int),
    SpecError,
>
    recommends
        0 <= pos <= s.len(),
{
    let p0 = spec_skip_ws(s, pos);
    match spec_keyword(s, p0, Tok::KwPub) {
        Ok(p1) => match spec_raw_top_level_statement(s, p1) {
            Err(e) => Err(e),
            Ok((v, q)) => Ok((SpecMaybePublic { is_pub: true, inner: v }, q)),
        },
        Err(_) => match spec_raw_top_level_statement(s, p0) {
            Err(e) => Err(e),
            Ok((v, q)) => Ok((SpecMaybePublic { is_pub: false, inner: v }, q)),
        },
    }
}

impl Let {
    /// Parse a `let` binding at `pos`, with no trailing semicolon.
    pub fn parse_at(s: &[u8], pos: usize) -> (r: Result<(Let, usize), Diagnostic>)
        requires
            pos <= s@.len(),
        ensures
            res_m(r, spec_let(s@, pos as int)),
            r matches Ok((_, p)) ==> pos < p && p <= s@.len(),
    {
        let p1 = match parse_keyword(s, pos, Tok::KwLet) {
            Ok(p) => p,
            Err(e) => { return Err(e) },
        };
        let (is_mut, p2): (bool, usize) = {
            let q = skip_ws(s, p1);
            match parse_keyword(s, q, Tok::KwMut) {
                Ok(q2) => (true, skip_ws(s, q2)),
                Err(_) => (false, p1),
            }
        };
        let p3 = skip_ws(s, p2);
        let (left, p4) = match IdentWithOptionalType::parse_at(s, p3) {
            Ok(v) => v,
            Err(e) => { return Err(e) },
        };
        let p5 = match parse_punct(s, p4, Tok::Assign) {
            Ok(p) => p,
            Err(e) => { return Err(e) },
        };
        match Expression::parse_at(s, p5, 0) {
            Err(e) => Err(e),
            Ok((right, p6)) => Ok((Let { is_mut, left, right }, p6)),
        }
    }

    /// Parse a whole input as one `let` binding.
    pub fn parse(input: &str) -> (r: Result<Let, Diagnostic>)
        ensures
            res_full_m(
                r,
                spec_full(spec_let(input.spec_bytes(), 0), input.spec_bytes().len() as int),
            ),
    {
        let s = input.as_bytes();
        match Let::parse_at(s, 0) {
            Ok((v, p)) => {
                if p == s.len() {
                    Ok(v)
                } else {
                    Err(Diagnostic { kind: ErrorKind::TrailingInput, start: p, end: s.len() })
                }
            },
            Err(d) => Err(d),
        }
    }
}

impl Statement {
    /// Parse a block-interior statement at `pos`: a `let` with its
    /// semicolon.
    pub fn parse_at(s: &[u8], pos: usize) -> (r: Result<(Statement, usize), Diagnostic>)
        requires
            pos <= s@.len(),
        ensures
            res_m(r, spec_statement(s@, pos as int)),
            r matches Ok((_, p)) ==> pos < p && p <= s@.len(),
    {
        let (l, p) = match Let::parse_at(s, pos) {
            Ok(v) => v,
            Err(e) => { return Err(e) },
        };
        match parse_punct(s, p, Tok::Semicolon) {
            Err(e) => Err(e),
            Ok(q) => Ok((Statement::Let(l), q)),
        }
    }

    /// Parse a whole input as one statement.
    pub fn parse(input: &str) -> (r: Result<Statement, Diagnostic>)
        ensures
            res_full_m(
                r,
                spec_full(spec_statement(input.spec_bytes(), 0), input.spec_bytes().len() as int),
            ),
    {
        let s = input.as_bytes();
        match Statement::parse_at(s, 0) {
            Ok((v, p)) => {
                if p == s.len() {
                    Ok(v)
                } else {
                    Err(Diagnostic { kind: ErrorKind::TrailingInput, start: p, end: s.len() })
                }
            },
            Err(d) => Err(d),
        }
    }
}

impl CodeScope {
    /// Parse a code block at `pos`.
    pub fn parse_at(s: &[u8], pos: usize) -> (r: Result<(CodeScope, usize), Diagnostic>)
        requires
            pos <= s@.len(),
        ensures
            res_m(r, spec_code_scope(s@, pos as int)),
            r matches Ok((_, p)) ==> pos < p && p <= s@.len(),
    {
        let p1 = match parse_punct(s, pos, Tok::LCurly) {
            Ok(p) => p,
            Err(e) => { return Err(e) },
        };
        let mut stmts: Vec<Statement> = Vec::new();
        let mut cur: usize = p1;
        proof {
            assert(stmts.deep_view() =~= Seq::<SpecStatement>::empty());
        }
        loop
            invariant_except_break
                pos < p1 <= s@.len(),
                p1 <= cur <= s@.len(),
                ({
                    let full = spec_stmt_list(s@, p1 as int);
                    let more = spec_stmt_list(s@, cur as int);
                    full.0 == stmts.deep_view() + more.0 && full.1 == more.1
                }),
            ensures
                p1 <= cur <= s@.len(),
                spec_stmt_list(s@, p1 as int).0 == stmts.deep_view(),
                spec_stmt_list(s@, p1 as int).1 == cur as int,
            decreases s@.len() - cur,
        {
            match Statement::parse_at(s, cur) {
                Err(_) => {
                    proof {
                        assert(stmts.deep_view() + Seq::<SpecStatement>::empty()
                            =~= stmts.deep_view());
                    }
                    break ;
                },
                Ok((st, q)) => {
                    let ghost before = stmts.deep_view();
                    stmts.push(st);
                    proof {
                        let rest = spec_stmt_list(s@, q as int);
                        assert(stmts.deep_view() =~= before.push(st.deep_view()));
                        assert(before.push(st.deep_view()) + rest.0 =~= before + (seq![
                            st.deep_view(),
                        ] + rest.0));
                    }
                    cur = q;
                },
            }
        }
        let (expr, p3) = match Expression::parse_at(s, cur, 0) {
            Ok(v) => v,
            Err(e) => { return Err(e) },
        };
        match parse_punct(s, p3, Tok::RCurly) {
            Err(e) => Err(e),
            Ok(p4) => Ok((CodeScope { statements: stmts, expr }, p4)),
        }
    }

    /// Parse a whole input as one code block.
    pub fn parse(input: &str) -> (r: Result<CodeScope, Diagnostic>)
        ensures
            res_full_m(
                r,
                spec_full(
                    spec_code_scope(input.spec_bytes(), 0),
                    input.spec_bytes().len() as int,
                ),
            ),
    {
        let s = input.as_bytes();
        match CodeScope::parse_at(s, 0) {
            Ok((v, p)) => {
                if p == s.len() {
                    Ok(v)
                } else {
                    Err(Diagnostic { kind: ErrorKind::TrailingInput, start: p, end: s.len() })
                }
            },
            Err(d) => Err(d),
        }
    }
}

impl FnDef {
    /// Parse a function definition at `pos`.
    pub fn parse_at(s: &[u8], pos: usize) -> (r: Result<(FnDef, usize), Diagnostic>)
        requires
            pos <= s@.len(),
        ensures
            res_m(r, spec_fn_def(s@, pos as int)),
            r matches Ok((_, p)) ==> pos < p && p <= s@.len(),
    {
        let p1 = match parse_keyword(s, pos, Tok::KwFn) {
            Ok(p) => p,
            Err(e) => { return Err(e) },
        };
        let p2 = skip_ws(s, p1);
        let (name, p3) = match Ident::parse_at(s, p2) {
            Ok(v) => v,
            Err(e) => { return Err(e) },
        };
        let p4 = match parse_punct(s, p3, Tok::LParen) {
            Ok(p) => p,
            Err(e) => { return Err(e) },
        };
        let mut params: Vec<IdentWithType> = Vec::new();
        let mut cur: usize = p4;
        match IdentWithType::parser_with(s, p4) {
            Err(_) => {
                proof {
                    assert(params.deep_view() =~= Seq::<SpecIdentWithType>::empty());
                }
            },
            Ok((v0, q0)) => {
                params.push(v0);
                cur = q0;
                proof {
                    assert(params.deep_view() =~= seq![v0.deep_view()]);
                }
                loop
                    invariant_except_break
                        pos < p4 <= s@.len(),
                        p4 < cur <= s@.len(),
                        ({
                            let full = spec_param_list(s@, p4 as int);
                            let more = spec_param_more(s@, cur as int);
                            full.0 == params.deep_view() + more.0 && full.1 == more.1
                        }),
                    ensures
                        p4 <= cur <= s@.len(),
                        pos < cur,
                        spec_param_list(s@, p4 as int).0 == params.deep_view(),
                        spec_param_list(s@, p4 as int).1 == cur as int,
                    decreases s@.len() - cur,
                {
                    let c1 = match parse_punct(s, cur, Tok::Comma) {
                        Err(_) => {
                            proof {
                                assert(params.deep_view() + Seq::<SpecIdentWithType>::empty()
                                    =~= params.deep_view());
                            }
                            break ;
                        },
                        Ok(c1) => c1,
                    };
                    match IdentWithType::parser_with(s, c1) {
                        Err(_) => {
                            // the comma is left unconsumed: no trailing comma
                            proof {
                                assert(params.deep_view() + Seq::<SpecIdentWithType>::empty()
                                    =~= params.deep_view());
                            }
                            break ;
                        },
                        Ok((v, q)) => {
                            let ghost before = params.deep_view();
                            params.push(v);
                            proof {
                                let rest = spec_param_more(s@, q as int);
                                assert(params.deep_view() =~= before.push(v.deep_view()));
                                assert(before.push(v.deep_view()) + rest.0 =~= before + (seq![
                                    v.deep_view(),
                                ] + rest.0));
                            }
                            cur = q;
                        },
                    }
                }
            },
        }
        let p6 = match parse_punct(s, cur, Tok::RParen) {
            Ok(p) => p,
            Err(e) => { return Err(e) },
        };
        let p7 = match parse_punct(s, p6, Tok::Arrow) {
            Ok(p) => p,
            Err(e) => { return Err(e) },
        };
        let (rt, p8) = match TypeLiteral::parse_at(s, p7) {
            Ok(v) => v,
            Err(e) => { return Err(e) },
        };
        match CodeScope::parse_at(s, p8) {
            Err(e) => Err(e),
            Ok((body, p9)) => Ok((FnDef { name, params, return_type: rt, body }, p9)),
        }
    }

    /// Parse a whole input as one function definition.
    pub fn parse(input: &str) -> (r: Result<FnDef, Diagnostic>)
        ensures
            res_full_m(
                r,
                spec_full(spec_fn_def(input.spec_bytes(), 0), input.spec_bytes().len() as int),
            ),
    {
        let s = input.as_bytes();
        match FnDef::parse_at(s, 0) {
            Ok((v, p)) => {
                if p == s.len() {
                    Ok(v)
                } else {
                    Err(Diagnostic { kind: ErrorKind::TrailingInput, start: p, end: s.len() })
                }
            },
            Err(d) => Err(d),
        }
    }
}

impl StructDef {
    /// Parse a struct definition at `pos`.
    pub fn parse_at(s: &[u8], pos: usize) -> (r: Result<(StructDef, usize), Diagnostic>)
        requires
            pos <= s@.len(),
        ensures
            res_m(r, spec_struct_def(s@, pos as int)),
            r matches Ok((_, p)) ==> pos < p && p <= s@.len(),
    {
        let p1 = match parse_keyword(s, pos, Tok::KwStruct) {
            Ok(p) => p,
            Err(e) => { return Err(e) },
        };
        let p2 = skip_ws(s, p1);
        let (name, p3) = match Ident::parse_at(s, p2) {
            Ok(v) => v,
            Err(e) => { return Err(e) },
        };
        let p4 = match parse_punct(s, p3, Tok::LCurly) {
            Ok(p) => p,
            Err(e) => { return Err(e) },
        };
        let mut fields: Vec<IdentWithType> = Vec::new();
        let mut cur: usize = p4;
        match IdentWithType::parser_with(s, p4) {
            Err(_) => {
                proof {
                    assert(fields.deep_view() =~= Seq::<SpecIdentWithType>::empty());
                }
            },
            Ok((v0, q0)) => {
                fields.push(v0);
                cur = q0;
                proof {
                    assert(fields.deep_view() =~= seq![v0.deep_view()]);
                }
                loop
                    invariant_except_break
                        pos < p4 <= s@.len(),
                        p4 < cur <= s@.len(),
                        ({
                            let full = spec_field_list(s@, p4 as int);
                            let more = spec_field_more(s@, cur as int);
                            full.0 == fields.deep_view() + more.0 && full.1 == more.1
                        }),
                    ensures
                        p4 <= cur <= s@.len(),
                        pos < cur,
                        spec_field_list(s@, p4 as int).0 == fields.deep_view(),
                        spec_field_list(s@, p4 as int).1 == cur as int,
                    decreases s@.len() - cur,
                {
                    let c1 = match parse_punct(s, cur, Tok::Comma) {
                        Err(_) => {
                            proof {
                                assert(fields.deep_view() + Seq::<SpecIdentWithType>::empty()
                                    =~= fields.deep_view());
                            }
                            break ;
                        },
                        Ok(c1) => c1,
                    };
                    match IdentWithType::parser_with(s, c1) {
                        Err(_) => {
                            // a trailing comma: kept, the list ends
                            proof {
                                assert(fields.deep_view() + Seq::<SpecIdentWithType>::empty()
                                    =~= fields.deep_view());
                            }
                            cur = c1;
                            break ;
                        },
                        Ok((v, q)) => {
                            let ghost before = fields.deep_view();
                            fields.push(v);
                            proof {
                                let rest = spec_field_more(s@, q as int);
                                assert(fields.deep_view() =~= before.push(v.deep_view()));
                                assert(before.push(v.deep_view()) + rest.0 =~= before + (seq![
                                    v.deep_view(),
                                ] + rest.0));
                            }
                            cur = q;
                        },
                    }
                }
            },
        }
        match parse_punct(s, cur, Tok::RCurly) {
            Err(e) => Err(e),
            Ok(p6) => Ok((StructDef { name, fields }, p6)),
        }
    }

    /// Parse a whole input as one struct definition.
    pub fn parse(input: &str) -> (r: Result<StructDef, Diagnostic>)
        ensures
            res_full_m(
                r,
                spec_full(
                    spec_struct_def(input.spec_bytes(), 0),
                    input.spec_bytes().len() as int,
                ),
            ),
    {
        let s = input.as_bytes();
        match StructDef::parse_at(s, 0) {
            Ok((v, p)) => {
                if p == s.len() {
                    Ok(v)
                } else {
                    Err(Diagnostic { kind: ErrorKind::TrailingInput, start: p, end: s.len() })
                }
            },
            Err(d) => Err(d),
        }
    }
}

impl RawTopLevelStatement {
    /// Parse a file-level declaration at `pos`, surrounding whitespace
    /// consumed.
    pub fn parse_at(s: &[u8], pos: usize) -> (r: Result<(RawTopLevelStatement, usize), Diagnostic>)
        requires
            pos <= s@.len(),
        ensures
            res_m(r, spec_raw_top_level_statement(s@, pos as int)),
            r matches Ok((_, p)) ==> pos < p && p <= s@.len(),
    {
        let q0 = skip_ws(s, pos);
        let e1 = match Let::parse_at(s, q0) {
            Ok((l, p)) => match parse_punct(s, p, Tok::Semicolon) {
                Ok(q) => {
                    return Ok((RawTopLevelStatement::Let(l), skip_ws(s, q)));
                },
                Err(e) => e,
            },
            Err(e) => e,
        };
        let e2 = match FnDef::parse_at(s, q0) {
            Ok((f, p)) => {
                return Ok((RawTopLevelStatement::FnDef(f), skip_ws(s, p)));
            },
            Err(e) => e,
        };
        match StructDef::parse_at(s, q0) {
            Ok((d, p)) => Ok((RawTopLevelStatement::StructDef(d), skip_ws(s, p))),
            Err(e3) => Err(pick_err(e1, pick_err(e2, e3))),
        }
    }

    /// Parse a whole input as one file-level declaration.
    pub fn parse(input: &str) -> (r: Result<RawTopLevelStatement, Diagnostic>)
        ensures
            res_full_m(
                r,
                spec_full(
                    spec_raw_top_level_statement(input.spec_bytes(), 0),
                    input.spec_bytes().len() as int,
                ),
            ),
    {
        let s = input.as_bytes();
        match RawTopLevelStatement::parse_at(s, 0) {
            Ok((v, p)) => {
                if p == s.len() {
                    Ok(v)
                } else {
                    Err(Diagnostic { kind: ErrorKind::TrailingInput, start: p, end: s.len() })
                }
            },
            Err(d) => Err(d),
        }
    }
}

impl MaybePublic<RawTopLevelStatement> {
    /// Parse a top-level statement at `pos`: an optional `pub`, then the
    /// declaration.
    pub fn parse_at(s: &[u8], pos: usize) -> (r: Result<(TopLevelStatement, usize), Diagnostic>)
        requires
            pos <= s@.len(),
        ensures
            res_m(r, spec_top_level_statement(s@, pos as int)),
            r matches Ok((_, p)) ==> pos < p && p <= s@.len(),
    {
        let p0 = skip_ws(s, pos);
        match parse_keyword(s, p0, Tok::KwPub) {
            Ok(p1) => match RawTopLevelStatement::parse_at(s, p1) {
                Err(e) => Err(e),
                Ok((v, q)) => Ok((MaybePublic { is_pub: true, inner: v }, q)),
            },
            Err(_) => match RawTopLevelStatement::parse_at(s, p0) {
                Err(e) => Err(e),
                Ok((v, q)) => Ok((MaybePublic { is_pub: false, inner: v }, q)),
            },
        }
    }

    /// Parse a whole input as one top-level statement.
    pub fn parse(input: &str) -> (r: Result<TopLevelStatement, Diagnostic>)
        ensures
            res_full_m(
                r,
                spec_full(
                    spec_top_level_statement(input.spec_bytes(), 0),
                    input.spec_bytes().len() as int,
                ),
            ),
    {
        let s = input.as_bytes();
        match MaybePublic::<RawTopLevelStatement>::parse_at(s, 0) {
            Ok((v, p)) => {
                if p == s.len() {
                    Ok(v)
                } else {
                    Err(Diagnostic { kind: ErrorKind::TrailingInput, start: p, end: s.len() })
                }
            },
            Err(d) => Err(d),
        }
    }
}

} // verus!
