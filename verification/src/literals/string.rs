//! String literals: an opening quote, a body of plain bytes and escape
//! sequences, and a closing quote. `\n` expands to a line feed, `\\` to a
//! backslash, `\"` to a quote; a backslash before a real line break is a
//! line continuation and produces nothing. A raw line feed before the
//! closing quote is a hard failure, as is running out of input.

use vstd::prelude::*;
use vstd::string::StringSliceAdditionalSpecFns;

use crate::diag::{
    lemma_bytes_deep_view, res_full_m, res_m, spec_full, Diagnostic, ErrorKind, SpecError, Tok,
};

verus! {

/// Mathematical string literal: the resolved (escape-expanded) bytes.
pub struct SpecStringLit(pub Seq<u8>);

/// A string literal value, holding its resolved (escape-expanded) bytes.
#[derive(Debug, PartialEq, Eq, Clone)]
pub struct StringLit(pub Vec<u8>);

impl DeepView for StringLit {
    type V = SpecStringLit;

    open spec fn deep_view(&self) -> SpecStringLit {
        SpecStringLit(self.0.deep_view())
    }
}

/// Prepend one resolved byte to a body outcome.
pub open spec fn spec_cons_byte(
    b: u8,
    r: Result<(Seq<u8>, int), SpecError>,
) -> Result<(Seq<u8>, int), SpecError> {
    match r {
        Ok((c, e)) => Ok((seq![b] + c, e)),
        Err(e) => Err(e),
    }
}

/// The body of a string literal, read from just after the opening quote.
/// Yields the resolved content and the position just after the closing
/// quote. An escape stands for its expansion, a line continuation for
/// nothing, and any other byte except a quote or a raw line feed for
/// itself; a backslash that begins no recognized escape stands for itself.
pub open spec fn spec_string_body(s: Seq<u8>, i: int) -> Result<(Seq<u8>, int), SpecError>
    decreases s.len() - i,
{
    if i < 0 || i >= s.len() {
        // out of input before the closing quote
        Err(SpecError { kind: ErrorKind::UnterminatedString, start: i, end: i })
    } else if s[i] == 0x22 {
        // closing quote
        Ok((seq![], i + 1))
    } else if s[i] == 0x5c && i + 1 < s.len() && s[i + 1] == 0x6e {
        spec_cons_byte(0x0a, spec_string_body(s, i + 2))
    } else if s[i] == 0x5c && i + 1 < s.len() && s[i + 1] == 0x5c {
        spec_cons_byte(0x5c, spec_string_body(s, i + 2))
    } else if s[i] == 0x5c && i + 1 < s.len() && s[i + 1] == 0x22 {
        spec_cons_byte(0x22, spec_string_body(s, i + 2))
    } else if s[i] == 0x5c && i + 1 < s.len() && s[i + 1] == 0x0d {
        // continuation over a carriage return, taking a following line feed
        // with it
        if i + 2 < s.len() && s[i + 2] == 0x0a {
            spec_string_body(s, i + 3)
        } else {
            spec_string_body(s, i + 2)
        }
    } else if s[i] == 0x5c && i + 1 < s.len() && (s[i + 1] == 0x0a || s[i + 1] == 0x0b || s[i + 1]
        == 0x0c) {
        // continuation over a line feed, vertical tab or form feed
        spec_string_body(s, i + 2)
    } else if s[i] == 0x0a {
        // a raw line feed may not stand in a string literal
        Err(SpecError { kind: ErrorKind::UnterminatedString, start: i, end: i })
    } else {
        spec_cons_byte(s[i], spec_string_body(s, i + 1))
    }
}

/// The string literal rule: quote, body, quote. Not padded.
pub open spec fn spec_stringlit(s: Seq<u8>, pos: int) -> Result<(SpecStringLit, int), SpecError>
    recommends
        0 <= pos <= s.len(),
{
    if 0 <= pos < s.len() && s[pos] == 0x22 {
        match spec_string_body(s, pos + 1) {
            Ok((c, e)) => Ok((SpecStringLit(c), e)),
            Err(e) => Err(e),
        }
    } else {
        Err(SpecError { kind: ErrorKind::Expected(Tok::Quote), start: pos, end: pos })
    }
}

impl StringLit {
    /// Parse a string literal at `pos`.
    pub fn parse_at(s: &[u8], pos: usize) -> (r: Result<(StringLit, usize), Diagnostic>)
        requires
            pos <= s@.len(),
        ensures
            res_m(r, spec_stringlit(s@, pos as int)),
            r matches Ok((_, p)) ==> pos < p && p <= s@.len(),
    {
        if !(pos < s.len() && s[pos] == 0x22) {
            return Err(Diagnostic { kind: ErrorKind::Expected(Tok::Quote), start: pos, end: pos });
        }
        let mut i: usize = pos + 1;
        let mut acc: Vec<u8> = Vec::new();
        loop
            invariant
                pos + 1 <= i <= s@.len(),
                pos < s@.len() && s@[pos as int] == 0x22,
                match spec_string_body(s@, i as int) {
                    Ok((c, e)) => spec_string_body(s@, (pos + 1) as int) == Ok::<
                        (Seq<u8>, int),
                        SpecError,
                    >((acc@ + c, e)),
                    Err(e) => spec_string_body(s@, (pos + 1) as int) == Err::<
                        (Seq<u8>, int),
                        SpecError,
                    >(e),
                },
            decreases s@.len() - i,
        {
            if i >= s.len() {
                return Err(Diagnostic { kind: ErrorKind::UnterminatedString, start: i, end: i });
            }
            let b = s[i];
            if b == 0x22 {
                proof {
                    assert(acc@ + seq![] =~= acc@);
                    lemma_bytes_deep_view(acc);
                }
                return Ok((StringLit(acc), i + 1));
            } else if b == 0x5c && i + 1 < s.len() && (s[i + 1] == 0x6e || s[i + 1] == 0x5c || s[i
                + 1] == 0x22) {
                let c: u8 = if s[i + 1] == 0x6e {
                    0x0a
                } else {
                    s[i + 1]
                };
                proof {
                    assert(acc@.push(c) + spec_rest_content(s@, i + 2) =~= acc@ + (seq![c]
                        + spec_rest_content(s@, i + 2)));
                }
                acc.push(c);
                i = i + 2;
            } else if b == 0x5c && i + 1 < s.len() && s[i + 1] == 0x0d {
                if i + 2 < s.len() && s[i + 2] == 0x0a {
                    i = i + 3;
                } else {
                    i = i + 2;
                }
            } else if b == 0x5c && i + 1 < s.len() && (s[i + 1] == 0x0a || s[i + 1] == 0x0b || s[i
                + 1] == 0x0c) {
                i = i + 2;
            } else if b == 0x0a {
                return Err(Diagnostic { kind: ErrorKind::UnterminatedString, start: i, end: i });
            } else {
                proof {
                    assert(acc@.push(b) + spec_rest_content(s@, i + 1) =~= acc@ + (seq![b]
                        + spec_rest_content(s@, i + 1)));
                }
                acc.push(b);
                i = i + 1;
            }
        }
    }

    /// Parse a whole input as one string literal.
    pub fn parse(input: &str) -> (r: Result<StringLit, Diagnostic>)
        ensures
            res_full_m(
                r,
                spec_full(
                    spec_stringlit(input.spec_bytes(), 0),
                    input.spec_bytes().len() as int,
                ),
            ),
    {
        let s = input.as_bytes();
        match StringLit::parse_at(s, 0) {
            Ok((v, p)) => {
                if p == s.len() {
                    Ok(v)
                } else {
                    Err(Diagnostic { kind: ErrorKind::TrailingInput, start: p, end: s.len() })
                }
            },
            Err(d) => Err(d),
        }
    }
}

/// A line feed at `k` is consumed as part of a line continuation: it
/// directly follows a backslash, or follows a carriage return that does.
pub open spec fn escaped_newline_at(s: Seq<u8>, k: int) -> bool {
    s[k - 1] == 0x5c || (k >= 2 && s[k - 1] == 0x0d && s[k - 2] == 0x5c)
}

/// In a successful body, every line feed is part of a line continuation.
pub proof fn lemma_string_body_no_raw_newline(s: Seq<u8>, i: int)
    ensures
        spec_string_body(s, i) matches Ok((_, e)) ==> forall|k: int|
            i <= k < e && s[k] == 0x0a ==> escaped_newline_at(s, k),
    decreases s.len() - i,
{
    if 0 <= i < s.len() {
        lemma_string_body_no_raw_newline(s, i + 1);
        if i + 2 <= s.len() {
            lemma_string_body_no_raw_newline(s, i + 2);
        }
        if i + 3 <= s.len() {
            lemma_string_body_no_raw_newline(s, i + 3);
        }
    }
}

/// Law: a string literal containing a raw, unescaped line feed before its
/// closing quote fails to parse. Stated positively: whenever a string
/// literal parses, every line feed inside its span was consumed by a line
/// continuation — it directly follows a backslash, or follows a carriage
/// return that does.
pub proof fn lemma_stringlit_no_raw_newline(s: Seq<u8>, pos: int)
    requires
        0 <= pos <= s.len(),
    ensures
        spec_stringlit(s, pos) matches Ok((_, end)) ==> forall|k: int|
            pos < k < end && s[k] == 0x0a ==> escaped_newline_at(s, k),
{
    lemma_string_body_no_raw_newline(s, pos + 1);
}

/// The content a successful body starting at `i` would yield; a helper for
/// stating loop invariants.
pub open spec fn spec_rest_content(s: Seq<u8>, i: int) -> Seq<u8> {
    match spec_string_body(s, i) {
        Ok((c, _)) => c,
        Err(_) => seq![],
    }
}

} // verus!
