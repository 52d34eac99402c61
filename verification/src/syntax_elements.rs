//! Fixed keyword and punctuation tokens. Punctuation and operator spellings
//! are padded: surrounding whitespace is consumed with the token. Keywords
//! are not padded, and must end at an identifier boundary, so that `letmut`
//! never parses as `let` followed by `mut`.

use vstd::prelude::*;

use crate::diag::{Diagnostic, ErrorKind, SpecError, Tok};
use crate::scan::{ident_continue_byte, is_ident_continue, skip_ws, spec_skip_ws};

verus! {

/// The byte length of a token's spelling.
pub open spec fn tok_len(t: Tok) -> int {
    match t {
        Tok::Arrow => 2,
        Tok::OpEquals => 2,
        Tok::KwLet => 3,
        Tok::KwFn => 2,
        Tok::KwStruct => 6,
        Tok::KwMut => 3,
        Tok::KwPub => 3,
        _ => 1,
    }
}

/// The token's spelling starts at position `p` of `s`.
pub open spec fn tok_at(s: Seq<u8>, p: int, t: Tok) -> bool {
    p >= 0 && p + tok_len(t) <= s.len() && match t {
        Tok::LParen => s[p] == 0x28,
        Tok::RParen => s[p] == 0x29,
        Tok::LCurly => s[p] == 0x7b,
        Tok::RCurly => s[p] == 0x7d,
        Tok::Comma => s[p] == 0x2c,
        Tok::Semicolon => s[p] == 0x3b,
        Tok::Colon => s[p] == 0x3a,
        Tok::Assign => s[p] == 0x3d,
        Tok::Arrow => s[p] == 0x2d && s[p + 1] == 0x3e,
        Tok::Dot => s[p] == 0x2e,
        Tok::Quote => s[p] == 0x22,
        Tok::OpEquals => s[p] == 0x3d && s[p + 1] == 0x3d,
        Tok::OpAdd => s[p] == 0x2b,
        Tok::OpSub => s[p] == 0x2d,
        Tok::OpMul => s[p] == 0x2a,
        Tok::OpDiv => s[p] == 0x2f,
        Tok::KwLet => s[p] == 0x6c && s[p + 1] == 0x65 && s[p + 2] == 0x74,
        Tok::KwFn => s[p] == 0x66 && s[p + 1] == 0x6e,
        Tok::KwStruct => s[p] == 0x73 && s[p + 1] == 0x74 && s[p + 2] == 0x72 && s[p + 3] == 0x75
            && s[p + 4] == 0x63 && s[p + 5] == 0x74,
        Tok::KwMut => s[p] == 0x6d && s[p + 1] == 0x75 && s[p + 2] == 0x74,
        Tok::KwPub => s[p] == 0x70 && s[p + 1] == 0x75 && s[p + 2] == 0x62,
    }
}

/// A padded token: leading whitespace, the spelling, trailing whitespace.
/// Returns the position after the trailing whitespace, or the failure at the
/// first non-whitespace byte.
pub open spec fn spec_punct(s: Seq<u8>, pos: int, t: Tok) -> Result<int, SpecError>
    recommends
        0 <= pos <= s.len(),
{
    let p = spec_skip_ws(s, pos);
    if tok_at(s, p, t) {
        Ok(spec_skip_ws(s, p + tok_len(t)))
    } else {
        Err(SpecError { kind: ErrorKind::Expected(t), start: p, end: p })
    }
}

/// An unpadded keyword: the spelling at `pos`, not followed by a byte that
/// could continue an identifier.
pub open spec fn spec_keyword(s: Seq<u8>, pos: int, t: Tok) -> Result<int, SpecError>
    recommends
        0 <= pos <= s.len(),
{
    if tok_at(s, pos, t) && (pos + tok_len(t) == s.len() || !is_ident_continue(
        s[pos + tok_len(t)],
    )) {
        Ok(pos + tok_len(t))
    } else {
        Err(SpecError { kind: ErrorKind::Expected(t), start: pos, end: pos })
    }
}

/// Match the token's spelling itself at `p`, without padding.
fn tok_try(s: &[u8], p: usize, t: Tok) -> (r: Option<usize>)
    requires
        p <= s@.len(),
    ensures
        match r {
            Some(q) => tok_at(s@, p as int, t) && q == p + tok_len(t) && q <= s@.len(),
            None => !tok_at(s@, p as int, t),
        },
{
    let n = s.len();
    match t {
        Tok::LParen => if p < n && s[p] == 0x28 { Some(p + 1) } else { None },
        Tok::RParen => if p < n && s[p] == 0x29 { Some(p + 1) } else { None },
        Tok::LCurly => if p < n && s[p] == 0x7b { Some(p + 1) } else { None },
        Tok::RCurly => if p < n && s[p] == 0x7d { Some(p + 1) } else { None },
        Tok::Comma => if p < n && s[p] == 0x2c { Some(p + 1) } else { None },
        Tok::Semicolon => if p < n && s[p] == 0x3b { Some(p + 1) } else { None },
        Tok::Colon => if p < n && s[p] == 0x3a { Some(p + 1) } else { None },
        Tok::Assign => if p < n && s[p] == 0x3d { Some(p + 1) } else { None },
        Tok::Arrow => if n - p >= 2 && s[p] == 0x2d && s[p + 1] == 0x3e { Some(p + 2) } else { None },
        Tok::Dot => if p < n && s[p] == 0x2e { Some(p + 1) } else { None },
        Tok::Quote => if p < n && s[p] == 0x22 { Some(p + 1) } else { None },
        Tok::OpEquals => if n - p >= 2 && s[p] == 0x3d && s[p + 1] == 0x3d { Some(p + 2) } else { None },
        Tok::OpAdd => if p < n && s[p] == 0x2b { Some(p + 1) } else { None },
        Tok::OpSub => if p < n && s[p] == 0x2d { Some(p + 1) } else { None },
        Tok::OpMul => if p < n && s[p] == 0x2a { Some(p + 1) } else { None },
        Tok::OpDiv => if p < n && s[p] == 0x2f { Some(p + 1) } else { None },
        Tok::KwLet => if n - p >= 3 && s[p] == 0x6c && s[p + 1] == 0x65 && s[p + 2] == 0x74 {
            Some(p + 3)
        } else {
            None
        },
        Tok::KwFn => if n - p >= 2 && s[p] == 0x66 && s[p + 1] == 0x6e { Some(p + 2) } else { None },
        Tok::KwStruct => if n - p >= 6 && s[p] == 0x73 && s[p + 1] == 0x74 && s[p + 2] == 0x72
            && s[p + 3] == 0x75 && s[p + 4] == 0x63 && s[p + 5] == 0x74 {
            Some(p + 6)
        } else {
            None
        },
        Tok::KwMut => if n - p >= 3 && s[p] == 0x6d && s[p + 1] == 0x75 && s[p + 2] == 0x74 {
            Some(p + 3)
        } else {
            None
        },
        Tok::KwPub => if n - p >= 3 && s[p] == 0x70 && s[p + 1] == 0x75 && s[p + 2] == 0x62 {
            Some(p + 3)
        } else {
            None
        },
    }
}

/// Parse a padded token at `pos`.
pub fn parse_punct(s: &[u8], pos: usize, t: Tok) -> (r: Result<usize, Diagnostic>)
    requires
        pos <= s@.len(),
    ensures
        match r {
            Ok(q) => spec_punct(s@, pos as int, t) == Ok::<int, SpecError>(q as int) && pos < q
                && q <= s@.len(),
            Err(d) => spec_punct(s@, pos as int, t) == Err::<int, SpecError>(d@),
        },
{
    let p = skip_ws(s, pos);
    match tok_try(s, p, t) {
        Some(q) => Ok(skip_ws(s, q)),
        None => Err(Diagnostic { kind: ErrorKind::Expected(t), start: p, end: p }),
    }
}

/// Parse an unpadded keyword at `pos`.
pub fn parse_keyword(s: &[u8], pos: usize, t: Tok) -> (r: Result<usize, Diagnostic>)
    requires
        pos <= s@.len(),
    ensures
        match r {
            Ok(q) => spec_keyword(s@, pos as int, t) == Ok::<int, SpecError>(q as int) && pos < q
                && q <= s@.len(),
            Err(d) => spec_keyword(s@, pos as int, t) == Err::<int, SpecError>(d@),
        },
{
    match tok_try(s, pos, t) {
        Some(q) => {
            if q == s.len() || !ident_continue_byte(s[q]) {
                Ok(q)
            } else {
                Err(Diagnostic { kind: ErrorKind::Expected(t), start: pos, end: pos })
            }
        },
        None => Err(Diagnostic { kind: ErrorKind::Expected(t), start: pos, end: pos }),
    }
}

} // verus!
