//! Byte-level scanning primitives: character classes, whitespace skipping,
//! and maximal runs, shared by every lexical rule of the grammar.

use vstd::prelude::*;

verus! {

/// An ASCII whitespace byte: space, tab, line feed, vertical tab, form feed
/// or carriage return.
pub open spec fn is_ws(b: u8) -> bool {
    b == 0x20 || b == 0x09 || b == 0x0a || b == 0x0b || b == 0x0c || b == 0x0d
}

/// An ASCII letter.
pub open spec fn is_alpha(b: u8) -> bool {
    (0x41 <= b && b <= 0x5a) || (0x61 <= b && b <= 0x7a)
}

/// An ASCII decimal digit.
pub open spec fn is_dec_digit(b: u8) -> bool {
    0x30 <= b && b <= 0x39
}

/// A byte that may continue an identifier: letter, digit or underscore.
pub open spec fn is_ident_continue(b: u8) -> bool {
    is_alpha(b) || is_dec_digit(b) || b == 0x5f
}

/// The numeric value of a digit byte, reading letters as ten and up; bytes
/// that are no digit at all map above every base, so `digit_val(b) < base`
/// means "a digit valid in `base`".
pub open spec fn digit_val(b: u8) -> int {
    if is_dec_digit(b) {
        b - 0x30
    } else if 0x61 <= b && b <= 0x7a {
        b - 0x61 + 10
    } else if 0x41 <= b && b <= 0x5a {
        b - 0x41 + 10
    } else {
        36
    }
}

/// A digit valid in `base`.
pub open spec fn is_digit(b: u8, base: u8) -> bool {
    digit_val(b) < base as int
}

/// The position of the first non-whitespace byte at or after `pos`.
pub open spec fn spec_skip_ws(s: Seq<u8>, pos: int) -> int
    recommends
        0 <= pos <= s.len(),
    decreases s.len() - pos,
{
    if pos < s.len() && is_ws(s[pos]) {
        spec_skip_ws(s, pos + 1)
    } else {
        pos
    }
}

/// Skipping whitespace stays inside the input and never moves backwards.
pub proof fn lemma_skip_ws_bounds(s: Seq<u8>, pos: int)
    requires
        0 <= pos <= s.len(),
    ensures
        pos <= spec_skip_ws(s, pos) <= s.len(),
    decreases s.len() - pos,
{
    if pos < s.len() && is_ws(s[pos]) {
        lemma_skip_ws_bounds(s, pos + 1);
    }
}

/// Executable whitespace test.
pub fn ws_byte(b: u8) -> (r: bool)
    ensures
        r == is_ws(b),
{
    b == 0x20 || b == 0x09 || b == 0x0a || b == 0x0b || b == 0x0c || b == 0x0d
}

/// Executable identifier-continuation test.
pub fn ident_continue_byte(b: u8) -> (r: bool)
    ensures
        r == is_ident_continue(b),
{
    (0x41 <= b && b <= 0x5a) || (0x61 <= b && b <= 0x7a) || (0x30 <= b && b <= 0x39) || b == 0x5f
}

/// Executable letter test.
pub fn alpha_byte(b: u8) -> (r: bool)
    ensures
        r == is_alpha(b),
{
    (0x41 <= b && b <= 0x5a) || (0x61 <= b && b <= 0x7a)
}

/// Executable valid-digit test for `base`.
pub fn digit_byte(b: u8, base: u8) -> (r: bool)
    ensures
        r == is_digit(b, base),
{
    let v: u8 = if 0x30 <= b && b <= 0x39 {
        b - 0x30
    } else if 0x61 <= b && b <= 0x7a {
        b - 0x61 + 10
    } else if 0x41 <= b && b <= 0x5a {
        b - 0x41 + 10
    } else {
        36
    };
    v < base
}

/// Skip whitespace, returning the position of the first non-whitespace byte.
pub fn skip_ws(s: &[u8], pos: usize) -> (r: usize)
    requires
        pos <= s@.len(),
    ensures
        r as int == spec_skip_ws(s@, pos as int),
        pos <= r <= s@.len(),
{
    let mut i: usize = pos;
    while i < s.len() && ws_byte(s[i])
        invariant
            pos <= i <= s@.len(),
            spec_skip_ws(s@, pos as int) == spec_skip_ws(s@, i as int),
        decreases s@.len() - i,
    {
        i = i + 1;
    }
    i
}

} // verus!
