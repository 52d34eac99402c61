//! The AST root and the parse entry point: a repeated sequence of top-level
//! statements until the input is exhausted; leftover unparseable trailing
//! content is a hard failure, reported with the most informative diagnostic
//! the last attempt produced.

use vstd::prelude::*;
use vstd::string::StringSliceAdditionalSpecFns;

use crate::diag::{step_pos, Diagnostic, ErrorKind, SpecError};
use crate::scan::{skip_ws, spec_skip_ws};
use crate::statement::{
    spec_top_level_statement, MaybePublic, RawTopLevelStatement, SpecMaybePublic,
    SpecRawTopLevelStatement, TopLevelStatement,
};

verus! {

/// Mathematical whole-program syntax tree.
pub struct SpecAst {
    pub statements: Seq<SpecMaybePublic<SpecRawTopLevelStatement>>,
}

/// The whole parsed program: its ordered top-level statements.
#[derive(Debug, PartialEq, Eq)]
pub struct Ast {
    pub statements: Vec<TopLevelStatement>,
}

impl DeepView for Ast {
    type V = SpecAst;

    open spec fn deep_view(&self) -> SpecAst {
        SpecAst { statements: self.statements.deep_view() }
    }
}

/// The run of top-level statements beginning at `pos`; it cannot fail —
/// where no statement begins, the run ends.
pub open spec fn spec_tls_list(s: Seq<u8>, pos: int) -> (
    Seq<SpecMaybePublic<SpecRawTopLevelStatement>>,
    int,
)
    recommends
        0 <= pos <= s.len(),
    decreases s.len() - pos,
{
    if pos >= s.len() {
        // nothing fits at the end of the input
        (seq![], pos)
    } else {
        match spec_top_level_statement(s, pos) {
            Err(_) => (seq![], pos),
            Ok((t, q)) => {
                let (rest, e) = spec_tls_list(s, step_pos(pos, q, s.len() as int));
                (seq![t] + rest, e)
            },
        }
    }
}

/// One step of the run: a statement parses, the run continues after it.
pub proof fn lemma_tls_list_step(s: Seq<u8>, pos: int, t: SpecMaybePublic<SpecRawTopLevelStatement>, q: int)
    requires
        0 <= pos <= s.len(),
        spec_top_level_statement(s, pos) == Ok::<(SpecMaybePublic<SpecRawTopLevelStatement>, int), SpecError>((t, q)),
        pos < q <= s.len(),
    ensures
        spec_tls_list(s, pos).0 == seq![t] + spec_tls_list(s, q).0,
        spec_tls_list(s, pos).1 == spec_tls_list(s, q).1,
{
}

/// The end of the run: where no statement parses, the run is empty.
pub proof fn lemma_tls_list_end(s: Seq<u8>, pos: int)
    requires
        0 <= pos <= s.len(),
        spec_top_level_statement(s, pos) is Err,
    ensures
        spec_tls_list(s, pos).0 == Seq::<SpecMaybePublic<SpecRawTopLevelStatement>>::empty(),
        spec_tls_list(s, pos).1 == pos,
{
}

/// The whole-program rule: every top-level statement, until only
/// whitespace remains; anything else left over fails with the diagnostic of
/// the statement attempt that rejected it.
pub open spec fn spec_ast(s: Seq<u8>) -> Result<SpecAst, SpecError> {
    let (stmts, p) = spec_tls_list(s, 0);
    if spec_skip_ws(s, p) == s.len() {
        Ok(SpecAst { statements: stmts })
    } else {
        match spec_top_level_statement(s, p) {
            Err(e) => Err(e),
            // the run only ever ends where no statement begins
            Ok(_) => Err(SpecError { kind: ErrorKind::TrailingInput, start: p, end: s.len() as int }),
        }
    }
}

impl Ast {
    /// Parse a whole program: the complete syntax tree, or a non-empty
    /// ordered collection of diagnostics.
    #[verifier::rlimit(100)]
    #[verifier::spinoff_prover]
    pub fn parse(input: &str) -> (r: Result<Ast, Vec<Diagnostic>>)
        ensures
            match r {
                Ok(a) => spec_ast(input.spec_bytes()) == Ok::<SpecAst, SpecError>(a.deep_view()),
                Err(v) => v@.len() == 1 && spec_ast(input.spec_bytes()) == Err::<
                    SpecAst,
                    SpecError,
                >(v@[0]@),
            },
    {
        let s = input.as_bytes();
        let mut stmts: Vec<TopLevelStatement> = Vec::new();
        let mut cur: usize = 0;
        proof {
            assert(stmts.deep_view() =~= Seq::<SpecMaybePublic<SpecRawTopLevelStatement>>::empty());
            assert(Seq::<SpecMaybePublic<SpecRawTopLevelStatement>>::empty() + spec_tls_list(
                s@,
                0,
            ).0 =~= spec_tls_list(s@, 0).0);
        }
        loop
            invariant
                cur <= s@.len(),
                s@ == input.spec_bytes(),
                ({
                    let full = spec_tls_list(s@, 0);
                    let more = spec_tls_list(s@, cur as int);
                    full.0 == stmts.deep_view() + more.0 && full.1 == more.1
                }),
            decreases s@.len() - cur,
        {
            match MaybePublic::<RawTopLevelStatement>::parse_at(s, cur) {
                Ok((t, q)) => {
                    let ghost before = stmts.deep_view();
                    stmts.push(t);
                    proof {
                        lemma_tls_list_step(s@, cur as int, t.deep_view(), q as int);
                        let rest = spec_tls_list(s@, q as int);
                        assert(stmts.deep_view() =~= before.push(t.deep_view()));
                        assert(before.push(t.deep_view()) + rest.0 =~= before + (seq![
                            t.deep_view(),
                        ] + rest.0));
                    }
                    cur = q;
                },
                Err(e) => {
                    proof {
                        lemma_tls_list_end(s@, cur as int);
                        assert(stmts.deep_view() + Seq::<
                            SpecMaybePublic<SpecRawTopLevelStatement>,
                        >::empty() =~= stmts.deep_view());
                    }
                    let w = skip_ws(s, cur);
                    if w == s.len() {
                        return Ok(Ast { statements: stmts });
                    } else {
                        let mut v: Vec<Diagnostic> = Vec::new();
                        v.push(e);
                        return Err(v);
                    }
                },
            }
        }
    }
}

} // verus!
