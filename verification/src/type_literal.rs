//! The type grammar: a recursive three-way choice, tried in this order —
//! function-signature type, tuple type, named type. The order matters: a
//! bare identifier must be tried last, since `fn` would otherwise be read
//! as a type name, and a lone `(` must mean a tuple.

use vstd::prelude::*;
use vstd::string::StringSliceAdditionalSpecFns;

use crate::diag::{
    pick_err, res_full_m, res_m, spec_choice, spec_full, step_pos, Diagnostic, SpecError, ErrorKind,
};
use crate::diag::Tok;
use crate::ident::{spec_ident, Ident, SpecIdent};
use crate::syntax_elements::{parse_keyword, parse_punct, spec_keyword, spec_punct};

verus! {

/// Mathematical type literal.
pub enum SpecTypeLiteral {
    /// Refers to a struct or to a generic parameter.
    Ident(SpecIdent),
    Fn(Box<SpecFnSignatureType>),
    Tuple(SpecTupleType),
}

/// Mathematical function-signature type.
pub struct SpecFnSignatureType {
    pub params: Seq<SpecTypeLiteral>,
    pub return_type: SpecTypeLiteral,
}

/// Mathematical tuple type; no elements is the unit type.
pub struct SpecTupleType(pub Seq<SpecTypeLiteral>);

/// The unit type: an empty tuple.
pub open spec fn spec_unit_type() -> SpecTypeLiteral {
    SpecTypeLiteral::Tuple(SpecTupleType(seq![]))
}

/// A type expression.
#[derive(Debug, PartialEq, Eq)]
pub enum TypeLiteral {
    /// Refers to a struct or to a generic parameter.
    Ident(Ident),
    Fn(Box<FnSignatureType>),
    Tuple(TupleType),
}

/// A function-signature type: `fn (T, ...) -> R`, the return type
/// defaulting to unit when the arrow is absent.
#[derive(Debug, PartialEq, Eq)]
pub struct FnSignatureType {
    pub params: Vec<TypeLiteral>,
    pub return_type: TypeLiteral,
}

/// A tuple type: parenthesized comma-separated types, a trailing comma
/// allowed; no elements is the unit type.
#[derive(Debug, PartialEq, Eq)]
pub struct TupleType(pub Vec<TypeLiteral>);

/// The mathematical value of a type literal.
pub open spec fn view_type(t: TypeLiteral) -> SpecTypeLiteral
    decreases t,
{
    match t {
        TypeLiteral::Ident(id) => SpecTypeLiteral::Ident(id.deep_view()),
        TypeLiteral::Fn(f) => SpecTypeLiteral::Fn(Box::new(view_fn_sig(*f))),
        TypeLiteral::Tuple(tt) => SpecTypeLiteral::Tuple(view_tuple(tt)),
    }
}

/// The mathematical value of a function-signature type.
pub open spec fn view_fn_sig(f: FnSignatureType) -> SpecFnSignatureType
    decreases f,
{
    SpecFnSignatureType {
        params: view_type_seq(f.params@),
        return_type: view_type(f.return_type),
    }
}

/// The mathematical value of a tuple type.
pub open spec fn view_tuple(t: TupleType) -> SpecTupleType
    decreases t,
{
    SpecTupleType(view_type_seq(t.0@))
}

/// The mathematical values of a sequence of type literals.
pub open spec fn view_type_seq(v: Seq<TypeLiteral>) -> Seq<SpecTypeLiteral>
    decreases v,
{
    if v.len() == 0 {
        seq![]
    } else {
        view_type_seq(v.drop_last()).push(view_type(v.last()))
    }
}

/// `view_type_seq` maps `view_type` over the sequence, element by element.
pub proof fn lemma_view_type_seq_index(v: Seq<TypeLiteral>)
    ensures
        view_type_seq(v).len() == v.len(),
        forall|i: int| 0 <= i < v.len() ==> view_type_seq(v)[i] == view_type(v[i]),
    decreases v.len(),
{
    if v.len() > 0 {
        lemma_view_type_seq_index(v.drop_last());
    }
}

impl DeepView for TypeLiteral {
    type V = SpecTypeLiteral;

    open spec fn deep_view(&self) -> SpecTypeLiteral {
        view_type(*self)
    }
}

impl DeepView for FnSignatureType {
    type V = SpecFnSignatureType;

    open spec fn deep_view(&self) -> SpecFnSignatureType {
        view_fn_sig(*self)
    }
}

impl DeepView for TupleType {
    type V = SpecTupleType;

    open spec fn deep_view(&self) -> SpecTupleType {
        view_tuple(*self)
    }
}

/// On a vector of type literals, the element-wise deep view is `view_type`
/// of each element.
pub proof fn lemma_view_type_vec(v: Vec<TypeLiteral>)
    ensures
        v.deep_view() == view_type_seq(v@),
{
    lemma_view_type_seq_index(v@);
    assert(v.deep_view() =~= view_type_seq(v@));
}

/// The type-literal rule: function-signature type, else tuple type, else
/// named type, in that order.
pub open spec fn spec_type_literal(s: Seq<u8>, pos: int) -> Result<
    (SpecTypeLiteral, int),
    SpecError,
>
    recommends
        0 <= pos <= s.len(),
    decreases s.len() - pos, 2int,
{
    spec_choice(
        match spec_fn_signature_type(s, pos) {
            Ok((f, p)) => Ok((SpecTypeLiteral::Fn(Box::new(f)), p)),
            Err(e) => Err(e),
        },
        spec_choice(
            match spec_tuple_type(s, pos) {
                Ok((t, p)) => Ok((SpecTypeLiteral::Tuple(t), p)),
                Err(e) => Err(e),
            },
            match spec_ident(s, pos) {
                Ok((id, p)) => Ok((SpecTypeLiteral::Ident(id), p)),
                Err(e) => Err(e),
            },
        ),
    )
}

/// The function-signature-type rule: the `fn` keyword, a tuple of parameter
/// types, and an optional `->` return type, unit when absent. A broken type
/// after the arrow abandons the arrow too.
pub open spec fn spec_fn_signature_type(s: Seq<u8>, pos: int) -> Result<
    (SpecFnSignatureType, int),
    SpecError,
>
    recommends
        0 <= pos <= s.len(),
    decreases s.len() - pos, 1int,
{
    match spec_keyword(s, pos, Tok::KwFn) {
        Err(e) => Err(e),
        Ok(p1) => match spec_tuple_type(s, p1) {
            Err(e) => Err(e),
            Ok((params, p2)) => {
                let p2c = step_pos(pos, p2, s.len() as int);
                match spec_punct(s, p2c, Tok::Arrow) {
                    Err(_) => Ok(
                        (SpecFnSignatureType { params: params.0, return_type: spec_unit_type() }, p2),
                    ),
                    Ok(p3) => match spec_type_literal(s, step_pos(p2c, p3, s.len() as int)) {
                        Err(_) => Ok(
                            (
                                SpecFnSignatureType {
                                    params: params.0,
                                    return_type: spec_unit_type(),
                                },
                                p2,
                            ),
                        ),
                        Ok((rt, p4)) => Ok((SpecFnSignatureType { params: params.0, return_type: rt }, p4)),
                    },
                }
            },
        },
    }
}

/// The tuple-type rule: `(`, comma-separated types with a trailing comma
/// allowed, `)`.
pub open spec fn spec_tuple_type(s: Seq<u8>, pos: int) -> Result<(SpecTupleType, int), SpecError>
    recommends
        0 <= pos <= s.len(),
    decreases s.len() - pos, 0int,
{
    match spec_punct(s, pos, Tok::LParen) {
        Err(e) => Err(e),
        Ok(p1) => {
            let p1c = step_pos(pos, p1, s.len() as int);
            let (items, p2) = spec_type_list(s, p1c);
            match spec_punct(s, step_pos(pos, p2, s.len() as int), Tok::RParen) {
                Err(e) => Err(e),
                Ok(p3) => Ok((SpecTupleType(items), p3)),
            }
        },
    }
}

/// A comma-separated list of types, possibly empty, a trailing comma
/// allowed; it cannot fail — where no type begins, the list ends.
pub open spec fn spec_type_list(s: Seq<u8>, pos: int) -> (Seq<SpecTypeLiteral>, int)
    recommends
        0 <= pos <= s.len(),
    decreases s.len() - pos, 3int,
{
    if pos >= s.len() {
        // nothing fits at the end of the input
        (seq![], pos)
    } else {
        match spec_type_literal(s, pos) {
            Err(_) => (seq![], pos),
            Ok((t0, p0)) => {
                let (rest, e) = spec_type_list_more(s, step_pos(pos, p0, s.len() as int));
                (seq![t0] + rest, e)
            },
        }
    }
}

/// The continuation of a type list: pairs of a comma and a type, and
/// possibly one trailing comma, which is kept when no type follows it.
pub open spec fn spec_type_list_more(s: Seq<u8>, pos: int) -> (Seq<SpecTypeLiteral>, int)
    recommends
        0 <= pos <= s.len(),
    decreases s.len() - pos, 4int,
{
    match spec_punct(s, pos, Tok::Comma) {
        Err(_) => (seq![], pos),
        Ok(p1) => {
            let p1c = step_pos(pos, p1, s.len() as int);
            match spec_type_literal(s, p1c) {
                // the comma was a trailing one
                Err(_) => (seq![], p1),
                Ok((t, p2)) => {
                    let (rest, e) = spec_type_list_more(s, step_pos(p1c, p2, s.len() as int));
                    (seq![t] + rest, e)
                },
            }
        },
    }
}

impl TypeLiteral {
    /// Parse a type literal at `pos`.
    pub fn parse_at(s: &[u8], pos: usize) -> (r: Result<(TypeLiteral, usize), Diagnostic>)
        requires
            pos <= s@.len(),
        ensures
            res_m(r, spec_type_literal(s@, pos as int)),
            r matches Ok((_, p)) ==> pos < p && p <= s@.len(),
        decreases s@.len() - pos, 2int,
    {
        let e1 = match FnSignatureType::parser_with(s, pos) {
            Ok((f, p)) => { return Ok((TypeLiteral::Fn(Box::new(f)), p)) },
            Err(e) => e,
        };
        let e2 = match TupleType::parser_with(s, pos) {
            Ok((t, p)) => { return Ok((TypeLiteral::Tuple(t), p)) },
            Err(e) => e,
        };
        let e3 = match Ident::parse_at(s, pos) {
            Ok((id, p)) => {
                proof {
                    crate::ident::lemma_ident_bounds(s@, pos as int);
                }
                return Ok((TypeLiteral::Ident(id), p));
            },
            Err(e) => e,
        };
        Err(pick_err(e1, pick_err(e2, e3)))
    }

    /// Parse a whole input as one type literal.
    pub fn parse(input: &str) -> (r: Result<TypeLiteral, Diagnostic>)
        ensures
            res_full_m(
                r,
                spec_full(
                    spec_type_literal(input.spec_bytes(), 0),
                    input.spec_bytes().len() as int,
                ),
            ),
    {
        let s = input.as_bytes();
        match TypeLiteral::parse_at(s, 0) {
            Ok((v, p)) => {
                if p == s.len() {
                    Ok(v)
                } else {
                    Err(Diagnostic { kind: ErrorKind::TrailingInput, start: p, end: s.len() })
                }
            },
            Err(d) => Err(d),
        }
    }
}

impl Default for TypeLiteral {
    /// The default type is unit: the empty tuple.
    fn default() -> (r: TypeLiteral)
        ensures
            r.deep_view() == spec_unit_type(),
    {
        let v: Vec<TypeLiteral> = Vec::new();
        proof {
            assert(view_type_seq(v@) =~= seq![]);
        }
        TypeLiteral::Tuple(TupleType(v))
    }
}

impl FnSignatureType {
    /// Parse a function-signature type at `pos`, within a surrounding type
    /// expression.
    pub fn parser_with(s: &[u8], pos: usize) -> (r: Result<(FnSignatureType, usize), Diagnostic>)
        requires
            pos <= s@.len(),
        ensures
            res_m(r, spec_fn_signature_type(s@, pos as int)),
            r matches Ok((_, p)) ==> pos < p && p <= s@.len(),
        decreases s@.len() - pos, 1int,
    {
        let p1 = match parse_keyword(s, pos, Tok::KwFn) {
            Ok(p) => p,
            Err(e) => { return Err(e) },
        };
        let (params, p2) = match TupleType::parser_with(s, p1) {
            Ok(v) => v,
            Err(e) => { return Err(e) },
        };
        match parse_punct(s, p2, Tok::Arrow) {
            Err(_) => Ok((FnSignatureType { params: params.0, return_type: TypeLiteral::default() }, p2)),
            Ok(p3) => match TypeLiteral::parse_at(s, p3) {
                Err(_) => Ok(
                    (FnSignatureType { params: params.0, return_type: TypeLiteral::default() }, p2),
                ),
                Ok((rt, p4)) => Ok((FnSignatureType { params: params.0, return_type: rt }, p4)),
            },
        }
    }

    /// Parse a whole input as one function-signature type.
    pub fn parse(input: &str) -> (r: Result<FnSignatureType, Diagnostic>)
        ensures
            res_full_m(
                r,
                spec_full(
                    spec_fn_signature_type(input.spec_bytes(), 0),
                    input.spec_bytes().len() as int,
                ),
            ),
    {
        let s = input.as_bytes();
        match FnSignatureType::parser_with(s, 0) {
            Ok((v, p)) => {
                if p == s.len() {
                    Ok(v)
                } else {
                    Err(Diagnostic { kind: ErrorKind::TrailingInput, start: p, end: s.len() })
                }
            },
            Err(d) => Err(d),
        }
    }
}

impl TupleType {
    /// The unit type's value: a tuple of no elements.
    pub fn unit() -> (r: TupleType)
        ensures
            r.deep_view() == SpecTupleType(seq![]),
    {
        let v: Vec<TypeLiteral> = Vec::new();
        proof {
            assert(view_type_seq(v@) =~= seq![]);
        }
        TupleType(v)
    }

    /// Parse a tuple type at `pos`, within a surrounding type expression.
    pub fn parser_with(s: &[u8], pos: usize) -> (r: Result<(TupleType, usize), Diagnostic>)
        requires
            pos <= s@.len(),
        ensures
            res_m(r, spec_tuple_type(s@, pos as int)),
            r matches Ok((_, p)) ==> pos < p && p <= s@.len(),
        decreases s@.len() - pos, 0int,
    {
        let p1 = match parse_punct(s, pos, Tok::LParen) {
            Ok(p) => p,
            Err(e) => { return Err(e) },
        };
        let mut items: Vec<TypeLiteral> = Vec::new();
        let mut cur: usize = p1;
        // the first element, if any
        match TypeLiteral::parse_at(s, p1) {
            Err(_) => {
                proof {
                    assert(items.deep_view() =~= Seq::<SpecTypeLiteral>::empty());
                }
            },
            Ok((t0, q0)) => {
                items.push(t0);
                cur = q0;
                proof {
                    assert(items.deep_view() =~= seq![t0.deep_view()]);
                }
                // the remaining elements
                loop
                    invariant_except_break
                        pos < p1 <= s@.len(),
                        pos < cur <= s@.len(),
                        ({
                            let full = spec_type_list(s@, p1 as int);
                            let more = spec_type_list_more(s@, cur as int);
                            full.0 == items.deep_view() + more.0 && full.1 == more.1
                        }),
                    ensures
                        pos < cur <= s@.len(),
                        spec_type_list(s@, p1 as int).0 == items.deep_view(),
                        spec_type_list(s@, p1 as int).1 == cur as int,
                    decreases s@.len() - cur,
                {
                    let c1 = match parse_punct(s, cur, Tok::Comma) {
                        Err(_) => {
                            proof {
                                assert(items.deep_view() + Seq::<SpecTypeLiteral>::empty() =~= items.deep_view());
                            }
                            break ;
                        },
                        Ok(c1) => c1,
                    };
                    match TypeLiteral::parse_at(s, c1) {
                        Err(_) => {
                            // a trailing comma: kept, the list ends
                            proof {
                                assert(items.deep_view() + Seq::<SpecTypeLiteral>::empty() =~= items.deep_view());
                            }
                            cur = c1;
                            break ;
                        },
                        Ok((t, q)) => {
                            let ghost before = items.deep_view();
                            items.push(t);
                            proof {
                                let rest = spec_type_list_more(s@, q as int);
                                assert(items.deep_view() =~= before.push(t.deep_view()));
                                assert(before.push(t.deep_view()) + rest.0 =~= before + (seq![
                                    t.deep_view(),
                                ] + rest.0));
                            }
                            cur = q;
                        },
                    }
                }
            },
        }
        match parse_punct(s, cur, Tok::RParen) {
            Err(e) => Err(e),
            Ok(p3) => {
                proof {
                    lemma_view_type_vec(items);
                }
                Ok((TupleType(items), p3))
            },
        }
    }

    /// Parse a whole input as one tuple type.
    pub fn parse(input: &str) -> (r: Result<TupleType, Diagnostic>)
        ensures
            res_full_m(
                r,
                spec_full(
                    spec_tuple_type(input.spec_bytes(), 0),
                    input.spec_bytes().len() as int,
                ),
            ),
    {
        let s = input.as_bytes();
        match TupleType::parser_with(s, 0) {
            Ok((v, p)) => {
                if p == s.len() {
                    Ok(v)
                } else {
                    Err(Diagnostic { kind: ErrorKind::TrailingInput, start: p, end: s.len() })
                }
            },
            Err(d) => Err(d),
        }
    }
}

} // verus!
