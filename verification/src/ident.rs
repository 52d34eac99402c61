//! Identifiers and binding sites. An identifier is a leading run of
//! underscores followed by a letter and a run of letters, digits or
//! underscores; its raw text is kept verbatim. It fails when the first
//! byte after the underscores is a digit, or missing, or whitespace.

use vstd::prelude::*;
use vstd::slice::{slice_subrange, slice_to_vec};
use vstd::string::StringSliceAdditionalSpecFns;

use crate::diag::{res_full_m, res_m, spec_choice, spec_full, pick_err, Diagnostic, ErrorKind, SpecError, Tok};
use crate::scan::{alpha_byte, ident_continue_byte, is_alpha, is_ident_continue, skip_ws, spec_skip_ws};
use crate::type_literal::{spec_type_literal, SpecTypeLiteral, TypeLiteral};

verus! {

/// Mathematical identifier: the raw bytes of the name.
pub struct SpecIdent(pub Seq<u8>);

/// A name token, holding its raw text.
#[derive(Debug, PartialEq, Eq, Clone)]
pub struct Ident(pub Vec<u8>);

impl DeepView for Ident {
    type V = SpecIdent;

    open spec fn deep_view(&self) -> SpecIdent {
        SpecIdent(self.0.deep_view())
    }
}

/// The position of the first byte at or after `pos` that is no underscore.
pub open spec fn spec_skip_underscores(s: Seq<u8>, pos: int) -> int
    decreases s.len() - pos,
{
    if pos < s.len() && s[pos] == 0x5f {
        spec_skip_underscores(s, pos + 1)
    } else {
        pos
    }
}

/// The position of the first byte at or after `pos` that can not continue
/// an identifier.
pub open spec fn spec_skip_ident_continue(s: Seq<u8>, pos: int) -> int
    decreases s.len() - pos,
{
    if pos < s.len() && is_ident_continue(s[pos]) {
        spec_skip_ident_continue(s, pos + 1)
    } else {
        pos
    }
}

pub proof fn lemma_skip_underscores_bounds(s: Seq<u8>, pos: int)
    requires
        0 <= pos <= s.len(),
    ensures
        pos <= spec_skip_underscores(s, pos) <= s.len(),
    decreases s.len() - pos,
{
    if pos < s.len() && s[pos] == 0x5f {
        lemma_skip_underscores_bounds(s, pos + 1);
    }
}

pub proof fn lemma_skip_ident_continue_bounds(s: Seq<u8>, pos: int)
    requires
        0 <= pos <= s.len(),
    ensures
        pos <= spec_skip_ident_continue(s, pos) <= s.len(),
    decreases s.len() - pos,
{
    if pos < s.len() && is_ident_continue(s[pos]) {
        lemma_skip_ident_continue_bounds(s, pos + 1);
    }
}

/// The identifier rule: `_`*, then a letter, then letters, digits or
/// underscores, all kept verbatim. Not padded: whitespace before the name
/// is a failure.
pub open spec fn spec_ident(s: Seq<u8>, pos: int) -> Result<(SpecIdent, int), SpecError>
    recommends
        0 <= pos <= s.len(),
{
    let u = spec_skip_underscores(s, pos);
    if u < s.len() && is_alpha(s[u]) {
        let end = spec_skip_ident_continue(s, u + 1);
        Ok((SpecIdent(s.subrange(pos, end)), end))
    } else {
        Err(SpecError { kind: ErrorKind::ExpectedIdent, start: u, end: u })
    }
}

/// An identifier parse moves the cursor forward and stays in the input.
pub proof fn lemma_ident_bounds(s: Seq<u8>, pos: int)
    requires
        0 <= pos <= s.len(),
    ensures
        spec_ident(s, pos) matches Ok((_, p)) ==> pos < p <= s.len(),
{
    lemma_skip_underscores_bounds(s, pos);
    let u = spec_skip_underscores(s, pos);
    if u < s.len() && is_alpha(s[u]) {
        lemma_skip_ident_continue_bounds(s, u + 1);
    }
}

/// Every byte before the end of the underscore run is an underscore, and
/// the run stops at the first byte that is none.
pub proof fn lemma_underscores_run(s: Seq<u8>, pos: int)
    requires
        0 <= pos <= s.len(),
    ensures
        forall|i: int| pos <= i < spec_skip_underscores(s, pos) ==> s[i] == 0x5f,
        spec_skip_underscores(s, pos) < s.len() ==> s[spec_skip_underscores(s, pos)] != 0x5f,
    decreases s.len() - pos,
{
    if pos < s.len() && s[pos] == 0x5f {
        lemma_underscores_run(s, pos + 1);
    }
}

/// Conversely, whatever stretch of underscores stops at a non-underscore is
/// the underscore run.
pub proof fn lemma_underscores_run_is(s: Seq<u8>, pos: int, u: int)
    requires
        0 <= pos <= u <= s.len(),
        forall|i: int| pos <= i < u ==> s[i] == 0x5f,
        u == s.len() || s[u] != 0x5f,
    ensures
        spec_skip_underscores(s, pos) == u,
    decreases u - pos,
{
    if pos < u {
        lemma_underscores_run_is(s, pos + 1, u);
    }
}

/// Every byte before the end of the identifier run can continue an
/// identifier, and the run stops at the first byte that can not.
pub proof fn lemma_ident_continue_run(s: Seq<u8>, pos: int)
    requires
        0 <= pos <= s.len(),
    ensures
        forall|i: int| pos <= i < spec_skip_ident_continue(s, pos) ==> is_ident_continue(s[i]),
        spec_skip_ident_continue(s, pos) < s.len() ==> !is_ident_continue(
            s[spec_skip_ident_continue(s, pos)],
        ),
    decreases s.len() - pos,
{
    if pos < s.len() && is_ident_continue(s[pos]) {
        lemma_ident_continue_run(s, pos + 1);
    }
}

/// Conversely, whatever stretch of continuation bytes stops at one that is
/// none is the identifier run.
pub proof fn lemma_ident_continue_run_is(s: Seq<u8>, pos: int, end: int)
    requires
        0 <= pos <= end <= s.len(),
        forall|i: int| pos <= i < end ==> is_ident_continue(s[i]),
        end == s.len() || !is_ident_continue(s[end]),
    ensures
        spec_skip_ident_continue(s, pos) == end,
    decreases end - pos,
{
    if pos < end {
        lemma_ident_continue_run_is(s, pos + 1, end);
    }
}

/// Law: identifiers round-trip. Whatever the identifier rule accepts,
/// re-parsing its raw text yields the same value again, consuming all of
/// it.
pub proof fn lemma_ident_round_trip(s: Seq<u8>, pos: int)
    requires
        0 <= pos <= s.len(),
    ensures
        spec_ident(s, pos) matches Ok((id, _)) ==> spec_full(
            spec_ident(id.0, 0),
            id.0.len() as int,
        ) == Ok::<SpecIdent, SpecError>(id),
{
    if spec_ident(s, pos) is Ok {
        lemma_skip_underscores_bounds(s, pos);
        lemma_underscores_run(s, pos);
        let u = spec_skip_underscores(s, pos);
        lemma_skip_ident_continue_bounds(s, u + 1);
        lemma_ident_continue_run(s, u + 1);
        let end = spec_skip_ident_continue(s, u + 1);
        let t = s.subrange(pos, end);
        lemma_underscores_run_is(t, 0, u - pos);
        lemma_ident_continue_run_is(t, u - pos + 1, end - pos);
        assert(t.subrange(0, end - pos) =~= t);
    }
}

impl Ident {
    /// Wrap raw text as a name, without parsing it.
    pub fn from_str(s: &str) -> (r: Ident)
        ensures
            r.deep_view().0 == s.spec_bytes(),
    {
        Ident(slice_to_vec(s.as_bytes()))
    }

    /// Parse an identifier at `pos`.
    pub fn parse_at(s: &[u8], pos: usize) -> (r: Result<(Ident, usize), Diagnostic>)
        requires
            pos <= s@.len(),
        ensures
            res_m(r, spec_ident(s@, pos as int)),
            r matches Ok((_, p)) ==> pos < p && p <= s@.len(),
    {
        let mut u: usize = pos;
        while u < s.len() && s[u] == 0x5f
            invariant
                pos <= u <= s@.len(),
                spec_skip_underscores(s@, pos as int) == spec_skip_underscores(s@, u as int),
            decreases s@.len() - u,
        {
            u = u + 1;
        }
        if u < s.len() && alpha_byte(s[u]) {
            let mut end: usize = u + 1;
            while end < s.len() && ident_continue_byte(s[end])
                invariant
                    u + 1 <= end <= s@.len(),
                    spec_skip_ident_continue(s@, (u + 1) as int) == spec_skip_ident_continue(
                        s@,
                        end as int,
                    ),
                decreases s@.len() - end,
            {
                end = end + 1;
            }
            let name = slice_to_vec(slice_subrange(s, pos, end));
            proof {
                crate::diag::lemma_bytes_deep_view(name);
            }
            Ok((Ident(name), end))
        } else {
            Err(Diagnostic { kind: ErrorKind::ExpectedIdent, start: u, end: u })
        }
    }

    /// Parse a whole input as one identifier.
    pub fn parse(input: &str) -> (r: Result<Ident, Diagnostic>)
        ensures
            res_full_m(r, spec_full(spec_ident(input.spec_bytes(), 0), input.spec_bytes().len() as int)),
    {
        let s = input.as_bytes();
        match Ident::parse_at(s, 0) {
            Ok((id, p)) => {
                if p == s.len() {
                    Ok(id)
                } else {
                    Err(Diagnostic { kind: ErrorKind::TrailingInput, start: p, end: s.len() })
                }
            },
            Err(d) => Err(d),
        }
    }
}

/// Mathematical binding site with a mandatory type annotation.
pub struct SpecIdentWithType {
    pub ident: SpecIdent,
    pub ty: SpecTypeLiteral,
}

/// Mathematical binding site with an optional type annotation.
pub struct SpecIdentWithOptionalType {
    pub ident: SpecIdent,
    pub ty: Option<SpecTypeLiteral>,
}

/// A binding site with a mandatory type annotation: `name: Type`, the colon
/// directly after the name.
#[derive(Debug, PartialEq, Eq)]
pub struct IdentWithType {
    pub ident: Ident,
    pub ty: TypeLiteral,
}

/// A binding site whose type annotation may be absent.
#[derive(Debug, PartialEq, Eq)]
pub struct IdentWithOptionalType {
    pub ident: Ident,
    pub ty: Option<TypeLiteral>,
}

impl DeepView for IdentWithType {
    type V = SpecIdentWithType;

    open spec fn deep_view(&self) -> SpecIdentWithType {
        SpecIdentWithType { ident: self.ident.deep_view(), ty: self.ty.deep_view() }
    }
}

impl DeepView for IdentWithOptionalType {
    type V = SpecIdentWithOptionalType;

    open spec fn deep_view(&self) -> SpecIdentWithOptionalType {
        SpecIdentWithOptionalType { ident: self.ident.deep_view(), ty: self.ty.deep_view() }
    }
}

impl From<Ident> for IdentWithOptionalType {
    /// A binding site of the bare name, with no type annotation.
    fn from(ident: Ident) -> (r: IdentWithOptionalType) {
        IdentWithOptionalType { ident, ty: None }
    }
}

impl vstd::std_specs::convert::FromSpecImpl<Ident> for IdentWithOptionalType {
    open spec fn obeys_from_spec() -> bool {
        true
    }

    open spec fn from_spec(ident: Ident) -> IdentWithOptionalType {
        IdentWithOptionalType { ident, ty: None }
    }
}

impl From<IdentWithType> for IdentWithOptionalType {
    /// A binding site keeping its type annotation.
    fn from(v: IdentWithType) -> (r: IdentWithOptionalType) {
        IdentWithOptionalType { ident: v.ident, ty: Some(v.ty) }
    }
}

impl vstd::std_specs::convert::FromSpecImpl<IdentWithType> for IdentWithOptionalType {
    open spec fn obeys_from_spec() -> bool {
        true
    }

    open spec fn from_spec(v: IdentWithType) -> IdentWithOptionalType {
        IdentWithOptionalType { ident: v.ident, ty: Some(v.ty) }
    }
}

/// The annotated-binding rule: whitespace, the name, a colon directly after
/// it, whitespace, the type.
pub open spec fn spec_ident_with_type(s: Seq<u8>, pos: int) -> Result<
    (SpecIdentWithType, int),
    SpecError,
>
    recommends
        0 <= pos <= s.len(),
{
    let p0 = spec_skip_ws(s, pos);
    match spec_ident(s, p0) {
        Err(e) => Err(e),
        Ok((id, p1)) => {
            if 0 <= p1 < s.len() && s[p1] == 0x3a {
                let p2 = spec_skip_ws(s, p1 + 1);
                match spec_type_literal(s, p2) {
                    Err(e) => Err(e),
                    Ok((t, p3)) => Ok((SpecIdentWithType { ident: id, ty: t }, p3)),
                }
            } else {
                Err(SpecError { kind: ErrorKind::Expected(Tok::Colon), start: p1, end: p1 })
            }
        },
    }
}

/// The binding-site rule: an annotated binding, else a bare name.
pub open spec fn spec_ident_with_optional_type(s: Seq<u8>, pos: int) -> Result<
    (SpecIdentWithOptionalType, int),
    SpecError,
>
    recommends
        0 <= pos <= s.len(),
{
    spec_choice(
        match spec_ident_with_type(s, pos) {
            Ok((v, p)) => Ok(
                (SpecIdentWithOptionalType { ident: v.ident, ty: Some(v.ty) }, p),
            ),
            Err(e) => Err(e),
        },
        match spec_ident(s, pos) {
            Ok((id, p)) => Ok((SpecIdentWithOptionalType { ident: id, ty: None }, p)),
            Err(e) => Err(e),
        },
    )
}

impl IdentWithType {
    /// Parse an annotated binding site at `pos`, within a surrounding
    /// declaration.
    pub fn parser_with(s: &[u8], pos: usize) -> (r: Result<(IdentWithType, usize), Diagnostic>)
        requires
            pos <= s@.len(),
        ensures
            res_m(r, spec_ident_with_type(s@, pos as int)),
            r matches Ok((_, p)) ==> pos < p && p <= s@.len(),
    {
        let p0 = skip_ws(s, pos);
        let (id, p1) = match Ident::parse_at(s, p0) {
            Ok(v) => v,
            Err(e) => { return Err(e) },
        };
        if p1 < s.len() && s[p1] == 0x3a {
            let p2 = skip_ws(s, p1 + 1);
            match TypeLiteral::parse_at(s, p2) {
                Err(e) => Err(e),
                Ok((t, p3)) => Ok((IdentWithType { ident: id, ty: t }, p3)),
            }
        } else {
            Err(Diagnostic { kind: ErrorKind::Expected(Tok::Colon), start: p1, end: p1 })
        }
    }

    /// Parse a whole input as one annotated binding site.
    pub fn parse(input: &str) -> (r: Result<IdentWithType, Diagnostic>)
        ensures
            res_full_m(
                r,
                spec_full(
                    spec_ident_with_type(input.spec_bytes(), 0),
                    input.spec_bytes().len() as int,
                ),
            ),
    {
        let s = input.as_bytes();
        match IdentWithType::parser_with(s, 0) {
            Ok((v, p)) => {
                if p == s.len() {
                    Ok(v)
                } else {
                    Err(Diagnostic { kind: ErrorKind::TrailingInput, start: p, end: s.len() })
                }
            },
            Err(d) => Err(d),
        }
    }
}

impl IdentWithOptionalType {
    /// Parse a binding site at `pos`: annotated if a colon follows the
    /// name, else bare.
    pub fn parse_at(s: &[u8], pos: usize) -> (r: Result<
        (IdentWithOptionalType, usize),
        Diagnostic,
    >)
        requires
            pos <= s@.len(),
        ensures
            res_m(r, spec_ident_with_optional_type(s@, pos as int)),
            r matches Ok((_, p)) ==> pos < p && p <= s@.len(),
    {
        let e1 = match IdentWithType::parser_with(s, pos) {
            Ok((v, p)) => {
                return Ok((IdentWithOptionalType { ident: v.ident, ty: Some(v.ty) }, p));
            },
            Err(e) => e,
        };
        match Ident::parse_at(s, pos) {
            Ok((id, p)) => Ok((IdentWithOptionalType { ident: id, ty: None }, p)),
            Err(e2) => Err(pick_err(e1, e2)),
        }
    }

    /// Parse a whole input as one binding site.
    pub fn parse(input: &str) -> (r: Result<IdentWithOptionalType, Diagnostic>)
        ensures
            res_full_m(
                r,
                spec_full(
                    spec_ident_with_optional_type(input.spec_bytes(), 0),
                    input.spec_bytes().len() as int,
                ),
            ),
    {
        let s = input.as_bytes();
        match IdentWithOptionalType::parse_at(s, 0) {
            Ok((v, p)) => {
                if p == s.len() {
                    Ok(v)
                } else {
                    Err(Diagnostic { kind: ErrorKind::TrailingInput, start: p, end: s.len() })
                }
            },
            Err(d) => Err(d),
        }
    }
}

} // verus!
