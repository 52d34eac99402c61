//! Diagnostics: the error values that a failed parse produces, and the rule
//! by which ordered alternation keeps the most informative failure.

use vstd::prelude::*;

verus! {

/// The fixed tokens of the grammar: punctuation, binary-operator spellings
/// and keywords. Each is a zero-payload marker; a parse failure names the
/// token it expected.
#[derive(Clone, Copy, Debug, PartialEq, Eq, Structural)]
pub enum Tok {
    LParen,
    RParen,
    LCurly,
    RCurly,
    Comma,
    Semicolon,
    Colon,
    Assign,
    Arrow,
    Dot,
    Quote,
    OpEquals,
    OpAdd,
    OpSub,
    OpMul,
    OpDiv,
    KwLet,
    KwFn,
    KwStruct,
    KwMut,
    KwPub,
}

/// Why a parse failed at some position.
#[derive(Clone, Copy, Debug, PartialEq, Eq, Structural)]
pub enum ErrorKind {
    /// A fixed token was required and not found.
    Expected(Tok),
    /// An identifier was required and not found.
    ExpectedIdent,
    /// A run of digits valid in the current base was required and not found.
    ExpectedDigits,
    /// No numeric literal begins here: its base prefix is absent.
    ExpectedNumber,
    /// A numeric literal in a base above ten carried a fractional part.
    FractionalNotSupported,
    /// A digit run denotes a value too large for a 64-bit integer.
    NumberTooLarge,
    /// A string literal ended at a raw newline or at end of input instead of
    /// a closing quote.
    UnterminatedString,
    /// No alternative of the expression grammar applies here.
    ExpectedExpression,
    /// A whole-input parse succeeded on a prefix but input remained.
    TrailingInput,
}

/// A positioned diagnostic: what failed and the byte span it failed at.
#[derive(Clone, Copy, Debug, PartialEq, Eq, Structural)]
pub struct Diagnostic {
    pub kind: ErrorKind,
    /// Byte offset into the source at which the failure starts.
    pub start: usize,
    /// Byte offset into the source at which the failure ends.
    pub end: usize,
}

/// The mathematical counterpart of `Diagnostic`, with unbounded positions:
/// the grammar's spec functions speak of arbitrary byte sequences.
pub struct SpecError {
    pub kind: ErrorKind,
    pub start: int,
    pub end: int,
}

impl View for Diagnostic {
    type V = SpecError;

    open spec fn view(&self) -> SpecError {
        SpecError { kind: self.kind, start: self.start as int, end: self.end as int }
    }
}

impl Diagnostic {
    /// The byte span of the failure.
    pub fn span(&self) -> (r: (usize, usize))
        ensures
            r.0 == self.start,
            r.1 == self.end,
    {
        (self.start, self.end)
    }

    /// A short description of the failure, for rendering.
    pub fn message(&self) -> (r: &'static str)
        ensures
            r@.len() > 0,
    {
        let m = match self.kind {
            ErrorKind::Expected(_) => "expected a token",
            ErrorKind::ExpectedIdent => "expected an identifier",
            ErrorKind::ExpectedDigits => "expected digits",
            ErrorKind::ExpectedNumber => "expected a numeric literal",
            ErrorKind::FractionalNotSupported => "float literals for bases greater than 10 are not supported.",
            ErrorKind::NumberTooLarge => "numeric literal does not fit in 64 bits",
            ErrorKind::UnterminatedString => "unterminated string literal",
            ErrorKind::ExpectedExpression => "expected an expression",
            ErrorKind::TrailingInput => "expected end of input",
        };
        proof {
            reveal_strlit("expected a token");
            reveal_strlit("expected an identifier");
            reveal_strlit("expected digits");
            reveal_strlit("expected a numeric literal");
            reveal_strlit("float literals for bases greater than 10 are not supported.");
            reveal_strlit("numeric literal does not fit in 64 bits");
            reveal_strlit("unterminated string literal");
            reveal_strlit("expected an expression");
            reveal_strlit("expected end of input");
        }
        m
    }
}

/// Ordered alternation keeps the failure that reached furthest into the
/// input; on a tie the earlier alternative's failure wins.
pub open spec fn spec_pick_err(e1: SpecError, e2: SpecError) -> SpecError {
    if e2.end > e1.end {
        e2
    } else {
        e1
    }
}

/// Ordered choice between two alternatives' outcomes: the first success
/// wins; if both fail, the most informative failure is kept.
pub open spec fn spec_choice<T>(
    a: Result<(T, int), SpecError>,
    b: Result<(T, int), SpecError>,
) -> Result<(T, int), SpecError> {
    match a {
        Ok(x) => Ok(x),
        Err(e1) => match b {
            Ok(y) => Ok(y),
            Err(e2) => Err(spec_pick_err(e1, e2)),
        },
    }
}

/// Agreement of an executable parse outcome at a cursor with the spec
/// grammar's outcome: same value (through its view), same new cursor, or
/// the same failure.
pub open spec fn res_m<T: DeepView>(
    r: Result<(T, usize), Diagnostic>,
    sr: Result<(T::V, int), SpecError>,
) -> bool {
    match r {
        Ok((v, p)) => sr == Ok::<(T::V, int), SpecError>((v.deep_view(), p as int)),
        Err(d) => sr == Err::<(T::V, int), SpecError>(d@),
    }
}

/// Agreement of an executable whole-input parse with the spec grammar's.
pub open spec fn res_full_m<T: DeepView>(
    r: Result<T, Diagnostic>,
    sr: Result<T::V, SpecError>,
) -> bool {
    match r {
        Ok(v) => sr == Ok::<T::V, SpecError>(v.deep_view()),
        Err(d) => sr == Err::<T::V, SpecError>(d@),
    }
}

/// A whole-input parse: the rule's outcome, which must consume the input
/// exactly; leftover bytes are a failure.
pub open spec fn spec_full<V>(sr: Result<(V, int), SpecError>, len: int) -> Result<V, SpecError> {
    match sr {
        Ok((v, p)) => if p == len {
            Ok(v)
        } else {
            Err(SpecError { kind: ErrorKind::TrailingInput, start: p, end: len })
        },
        Err(e) => Err(e),
    }
}

/// A sub-parse leaves the cursor strictly past `pos` and at most at `len`;
/// the executable parsers' contracts carry that fact for every rule.
/// `step_pos` restates the window structurally, which keeps the grammar's
/// recursion visibly well-founded; wherever a rule's cursor actually lands,
/// it is the identity on `q`.
pub open spec fn step_pos(pos: int, q: int, len: int) -> int {
    if pos < q && q <= len {
        q
    } else if pos + 1 <= len {
        pos + 1
    } else {
        len
    }
}

/// For a byte vector the deep view is the plain view.
pub proof fn lemma_bytes_deep_view(v: Vec<u8>)
    ensures
        v.deep_view() == v@,
{
    assert(v.deep_view() =~= v@);
}

/// Executable counterpart of `spec_pick_err`.
pub fn pick_err(e1: Diagnostic, e2: Diagnostic) -> (r: Diagnostic)
    ensures
        r@ == spec_pick_err(e1@, e2@),
{
    if e2.end > e1.end {
        e2
    } else {
        e1
    }
}

} // verus!
