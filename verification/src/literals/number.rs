//! Numeric literals. Base prefixes are tried in the order `0x` (16), `0b`
//! (2), `0o` (8), none (10). For the chosen base: leading zero bytes are
//! skipped, a non-empty digit run gives the integer part, and a dot
//! followed by a digit run gives the fractional part. A fractional part is
//! rejected outright when the base is above ten. Digits invalid in the base
//! simply end the literal. A value is kept as its components — base,
//! integer part, fractional digits and their count — so the denoted number
//! is `integer + fraction / base^frac_len`.

use vstd::prelude::*;
use vstd::string::StringSliceAdditionalSpecFns;

use crate::diag::{
    res_full_m, res_m, spec_choice, spec_full, pick_err, Diagnostic, ErrorKind, SpecError,
};
use crate::scan::{digit_byte, digit_val, is_digit};

verus! {

/// A numeric literal: `integer + fraction / base^frac_len` in `base`.
/// `frac_len` is zero exactly when the literal has no fractional part.
#[derive(Debug, PartialEq, Eq, Clone, Copy, Structural)]
pub struct NumLit {
    pub base: u8,
    pub integer: u64,
    pub fraction: u64,
    pub frac_len: usize,
}

impl DeepView for NumLit {
    type V = NumLit;

    open spec fn deep_view(&self) -> NumLit {
        *self
    }
}

/// The position of the first byte at or after `pos` that is no zero digit.
pub open spec fn spec_skip_zeros(s: Seq<u8>, pos: int) -> int
    decreases s.len() - pos,
{
    if pos < s.len() && s[pos] == 0x30 {
        spec_skip_zeros(s, pos + 1)
    } else {
        pos
    }
}

/// The position of the first byte at or after `pos` that is no digit of
/// `base`.
pub open spec fn spec_skip_digits(s: Seq<u8>, pos: int, base: u8) -> int
    decreases s.len() - pos,
{
    if pos < s.len() && is_digit(s[pos], base) {
        spec_skip_digits(s, pos + 1, base)
    } else {
        pos
    }
}

/// The value of the digit run `s[start..end]` read in `base`.
pub open spec fn spec_digits_value(s: Seq<u8>, start: int, end: int, base: u8) -> int
    decreases end - start,
{
    if start < end {
        spec_digits_value(s, start, end - 1, base) * (base as int) + digit_val(s[end - 1])
    } else {
        0
    }
}

pub proof fn lemma_skip_zeros_bounds(s: Seq<u8>, pos: int)
    requires
        0 <= pos <= s.len(),
    ensures
        pos <= spec_skip_zeros(s, pos) <= s.len(),
    decreases s.len() - pos,
{
    if pos < s.len() && s[pos] == 0x30 {
        lemma_skip_zeros_bounds(s, pos + 1);
    }
}

pub proof fn lemma_skip_digits_bounds(s: Seq<u8>, pos: int, base: u8)
    requires
        0 <= pos <= s.len(),
    ensures
        pos <= spec_skip_digits(s, pos, base) <= s.len(),
    decreases s.len() - pos,
{
    if pos < s.len() && is_digit(s[pos], base) {
        lemma_skip_digits_bounds(s, pos + 1, base);
    }
}

/// A digit run's value is never negative.
pub proof fn lemma_digits_value_nonneg(s: Seq<u8>, start: int, end: int, base: u8)
    ensures
        spec_digits_value(s, start, end, base) >= 0,
    decreases end - start,
{
    if start < end {
        lemma_digits_value_nonneg(s, start, end - 1, base);
        let v = spec_digits_value(s, start, end - 1, base);
        assert(v * (base as int) >= 0) by (nonlinear_arith)
            requires
                v >= 0,
        ;
        assert(digit_val(s[end - 1]) >= 0);
    }
}

/// Extending a digit run never shrinks its value.
pub proof fn lemma_digits_value_mono(s: Seq<u8>, start: int, e1: int, e2: int, base: u8)
    requires
        start <= e1 <= e2,
        base >= 1,
    ensures
        spec_digits_value(s, start, e1, base) <= spec_digits_value(s, start, e2, base),
    decreases e2 - e1,
{
    if e1 < e2 {
        lemma_digits_value_mono(s, start, e1, e2 - 1, base);
        let v = spec_digits_value(s, start, e2 - 1, base);
        lemma_digits_value_nonneg(s, start, e2 - 1, base);
        assert(v * (base as int) >= v) by (nonlinear_arith)
            requires
                v >= 0,
                base >= 1,
        ;
        assert(digit_val(s[e2 - 1]) >= 0);
    }
}

/// Every byte before the end of the zero run is a zero digit, and the run
/// stops at the first byte that is none.
pub proof fn lemma_zeros_run(s: Seq<u8>, pos: int)
    requires
        0 <= pos <= s.len(),
    ensures
        forall|i: int| pos <= i < spec_skip_zeros(s, pos) ==> s[i] == 0x30,
        spec_skip_zeros(s, pos) < s.len() ==> s[spec_skip_zeros(s, pos)] != 0x30,
    decreases s.len() - pos,
{
    if pos < s.len() && s[pos] == 0x30 {
        lemma_zeros_run(s, pos + 1);
    }
}

/// Conversely, whatever stretch of digits stops at a non-digit is the digit
/// run.
pub proof fn lemma_digits_run_is(s: Seq<u8>, pos: int, end: int, base: u8)
    requires
        0 <= pos <= end <= s.len(),
        forall|i: int| pos <= i < end ==> is_digit(s[i], base),
        end == s.len() || !is_digit(s[end], base),
    ensures
        spec_skip_digits(s, pos, base) == end,
    decreases end - pos,
{
    if pos < end {
        lemma_digits_run_is(s, pos + 1, end, base);
    }
}

/// A run of zero digits denotes zero.
pub proof fn lemma_digits_value_all_zeros(s: Seq<u8>, start: int, end: int, base: u8)
    requires
        start <= end,
        forall|i: int| start <= i < end ==> s[i] == 0x30,
    ensures
        spec_digits_value(s, start, end, base) == 0,
    decreases end - start,
{
    if start < end {
        lemma_digits_value_all_zeros(s, start, end - 1, base);
    }
}

/// Leading zero digits do not change a run's value.
pub proof fn lemma_digits_value_skip_zeros(s: Seq<u8>, start: int, z: int, end: int, base: u8)
    requires
        start <= z <= end,
        forall|i: int| start <= i < z ==> s[i] == 0x30,
    ensures
        spec_digits_value(s, start, end, base) == spec_digits_value(s, z, end, base),
    decreases end - z,
{
    if end > z {
        lemma_digits_value_skip_zeros(s, start, z, end - 1, base);
    } else {
        lemma_digits_value_all_zeros(s, start, end, base);
    }
}

/// A run's value depends only on its bytes, wherever they sit.
pub proof fn lemma_digits_value_shift(s: Seq<u8>, k: int, t: Seq<u8>, start: int, end: int, base: u8)
    requires
        start <= end,
        forall|i: int| start <= i < end ==> s[i + k] == t[i],
    ensures
        spec_digits_value(s, start + k, end + k, base) == spec_digits_value(t, start, end, base),
    decreases end - start,
{
    if start < end {
        lemma_digits_value_shift(s, k, t, start, end - 1, base);
    }
}

/// The end of the fractional digit run beginning at `fs`: one digit when it
/// is a zero, else the maximal run. (An integer run may not begin with a
/// zero; a lone zero is one.)
pub open spec fn spec_frac_end(s: Seq<u8>, fs: int, base: u8) -> int {
    if s[fs] == 0x30 {
        fs + 1
    } else {
        spec_skip_digits(s, fs, base)
    }
}

/// The numeric literal rule for one base, with the prefix already consumed:
/// skip leading zeros, read the integer run, optionally read `.` and the
/// fractional run. `lit_start` anchors error spans at the prefix.
pub open spec fn spec_num_base(s: Seq<u8>, lit_start: int, pos: int, base: u8) -> Result<
    (NumLit, int),
    SpecError,
>
    recommends
        0 <= lit_start <= pos <= s.len(),
{
    let z = spec_skip_zeros(s, pos);
    let ie = spec_skip_digits(s, z, base);
    if ie == z {
        Err(SpecError { kind: ErrorKind::ExpectedDigits, start: z, end: z })
    } else {
        let iv = spec_digits_value(s, z, ie, base);
        if ie < s.len() && s[ie] == 0x2e && ie + 1 < s.len() && is_digit(s[ie + 1], base) {
            let fs = ie + 1;
            let fe = spec_frac_end(s, fs, base);
            if base > 10 {
                // a fractional part in such a base would be ambiguous with a
                // trailing suffix
                Err(SpecError {
                    kind: ErrorKind::FractionalNotSupported,
                    start: lit_start,
                    end: fe,
                })
            } else {
                let fv = spec_digits_value(s, fs, fe, base);
                if iv >= 0x10000000000000000 || fv >= 0x10000000000000000 {
                    Err(SpecError { kind: ErrorKind::NumberTooLarge, start: lit_start, end: fe })
                } else {
                    Ok(
                        (
                            NumLit {
                                base,
                                integer: iv as u64,
                                fraction: fv as u64,
                                frac_len: (fe - fs) as usize,
                            },
                            fe,
                        ),
                    )
                }
            }
        } else {
            if iv >= 0x10000000000000000 {
                Err(SpecError { kind: ErrorKind::NumberTooLarge, start: lit_start, end: ie })
            } else {
                Ok((NumLit { base, integer: iv as u64, fraction: 0, frac_len: 0 }, ie))
            }
        }
    }
}

/// The numeric literal rule for a prefixed base: the two prefix bytes, then
/// the based literal.
pub open spec fn spec_num_prefixed(s: Seq<u8>, pos: int, sym: u8, base: u8) -> Result<
    (NumLit, int),
    SpecError,
>
    recommends
        0 <= pos <= s.len(),
{
    if pos + 2 <= s.len() && s[pos] == 0x30 && s[pos + 1] == sym {
        spec_num_base(s, pos, pos + 2, base)
    } else {
        Err(SpecError { kind: ErrorKind::ExpectedNumber, start: pos, end: pos })
    }
}

/// The numeric literal rule: `0x` (16), `0b` (2), `0o` (8), bare (10),
/// tried in that order. Not padded.
pub open spec fn spec_numlit(s: Seq<u8>, pos: int) -> Result<(NumLit, int), SpecError>
    recommends
        0 <= pos <= s.len(),
{
    spec_choice(
        spec_num_prefixed(s, pos, 0x78, 16),
        spec_choice(
            spec_num_prefixed(s, pos, 0x62, 2),
            spec_choice(spec_num_prefixed(s, pos, 0x6f, 8), spec_num_base(s, pos, pos, 10)),
        ),
    )
}

/// The executable value of a digit byte.
fn digit_val_byte(b: u8) -> (r: u8)
    ensures
        r as int == digit_val(b),
{
    if 0x30 <= b && b <= 0x39 {
        b - 0x30
    } else if 0x61 <= b && b <= 0x7a {
        b - 0x61 + 10
    } else if 0x41 <= b && b <= 0x5a {
        b - 0x41 + 10
    } else {
        36
    }
}

/// Read the value of the digit run `s[start..end]` in `base`, or report
/// that it does not fit in 64 bits.
fn digits_value_u64(s: &[u8], start: usize, end: usize, base: u8) -> (r: Option<u64>)
    requires
        start <= end <= s@.len(),
        base == 2 || base == 8 || base == 10 || base == 16,
    ensures
        match r {
            Some(v) => v as int == spec_digits_value(s@, start as int, end as int, base),
            None => spec_digits_value(s@, start as int, end as int, base) >= 0x10000000000000000,
        },
{
    let mut v: u128 = 0;
    let mut k: usize = start;
    while k < end
        invariant
            start <= k <= end <= s@.len(),
            base == 2 || base == 8 || base == 10 || base == 16,
            v < 0x10000000000000000,
            v as int == spec_digits_value(s@, start as int, k as int, base),
        decreases end - k,
    {
        let d = digit_val_byte(s[k]);
        proof {
            assert((v as int) * (base as int) + (d as int) < 0x200000000000000000) by (nonlinear_arith)
                requires
                    0 <= v < 0x10000000000000000,
                    0 <= base <= 16,
                    0 <= d <= 36,
            ;
        }
        let v2: u128 = v * (base as u128) + (d as u128);
        if v2 >= 0x10000000000000000 {
            proof {
                lemma_digits_value_mono(s@, start as int, (k + 1) as int, end as int, base);
            }
            return None;
        }
        v = v2;
        k = k + 1;
    }
    Some(v as u64)
}

/// Law, prefixed bases: for each base b of 16, 2 and 8 with its prefix, and
/// every digit string valid in b that holds a nonzero digit and denotes a
/// value below 2^64, parsing `{prefix}{digits}` yields exactly the digit
/// string's positional value, with no fractional part, consuming all of it.
/// (A string of only zeros is left out: the grammar's zero-skipping then
/// finds no digit run and rejects the literal.)
pub proof fn lemma_prefixed_literal_value(sym: u8, base: u8, d: Seq<u8>)
    requires
        (sym == 0x78 && base == 16) || (sym == 0x62 && base == 2) || (sym == 0x6f && base == 8),
        d.len() > 0,
        forall|i: int| 0 <= i < d.len() ==> is_digit(d[i], base),
        exists|i: int| 0 <= i < d.len() && d[i] != 0x30,
        spec_digits_value(d, 0, d.len() as int, base) < 0x10000000000000000,
    ensures
        spec_full(spec_numlit(seq![0x30u8, sym] + d, 0), d.len() + 2int) == Ok::<NumLit, SpecError>(
            NumLit {
                base,
                integer: spec_digits_value(d, 0, d.len() as int, base) as u64,
                fraction: 0,
                frac_len: 0,
            },
        ),
{
    let s = seq![0x30u8, sym] + d;
    let n = s.len() as int;
    assert(forall|i: int| 0 <= i < d.len() ==> s[i + 2] == d[i]);
    lemma_zeros_run(s, 2);
    let z = spec_skip_zeros(s, 2);
    lemma_skip_zeros_bounds(s, 2);
    if z == n {
        let j = choose|j: int| 0 <= j < d.len() && d[j] != 0x30;
        assert(s[j + 2] == d[j]);
        assert(false);
    }
    assert(forall|i: int| z <= i < n ==> is_digit(s[i], base)) by {
        assert(forall|i: int| z <= i < n ==> s[i] == d[i - 2]);
    }
    lemma_digits_run_is(s, z, n, base);
    lemma_digits_value_skip_zeros(s, 2, z, n, base);
    lemma_digits_value_shift(s, 2, d, 0, d.len() as int, base);
}

/// Law, base ten without a prefix: every digit string of decimal digits
/// that holds a nonzero digit and denotes a value below 2^64 parses to
/// exactly its positional value, with no fractional part.
pub proof fn lemma_decimal_literal_value(d: Seq<u8>)
    requires
        d.len() > 0,
        forall|i: int| 0 <= i < d.len() ==> is_digit(d[i], 10),
        exists|i: int| 0 <= i < d.len() && d[i] != 0x30,
        spec_digits_value(d, 0, d.len() as int, 10) < 0x10000000000000000,
    ensures
        spec_full(spec_numlit(d, 0), d.len() as int) == Ok::<NumLit, SpecError>(
            NumLit {
                base: 10,
                integer: spec_digits_value(d, 0, d.len() as int, 10) as u64,
                fraction: 0,
                frac_len: 0,
            },
        ),
{
    let n = d.len() as int;
    // no base prefix can match: the second byte would have to be a letter
    assert(d.len() >= 2 ==> is_digit(d[1], 10));
    lemma_zeros_run(d, 0);
    let z = spec_skip_zeros(d, 0);
    lemma_skip_zeros_bounds(d, 0);
    if z == n {
        assert(false);
    }
    lemma_digits_run_is(d, z, n, 10);
    lemma_digits_value_skip_zeros(d, 0, z, n, 10);
}

/// Law, base ten with a fractional part: for decimal digit strings `d1`
/// (holding a nonzero digit) and `d2` (not zero-led unless it is the lone
/// zero digit), both below 2^64 in value, parsing `{d1}.{d2}` yields
/// integer part `value(d1)` and fractional part `value(d2)` over
/// `10^len(d2)` digits.
pub proof fn lemma_decimal_fraction_value(d1: Seq<u8>, d2: Seq<u8>)
    requires
        d1.len() > 0,
        forall|i: int| 0 <= i < d1.len() ==> is_digit(d1[i], 10),
        exists|i: int| 0 <= i < d1.len() && d1[i] != 0x30,
        spec_digits_value(d1, 0, d1.len() as int, 10) < 0x10000000000000000,
        d2.len() > 0,
        forall|i: int| 0 <= i < d2.len() ==> is_digit(d2[i], 10),
        d2[0] != 0x30 || d2.len() == 1,
        spec_digits_value(d2, 0, d2.len() as int, 10) < 0x10000000000000000,
    ensures
        spec_full(spec_numlit(d1 + seq![0x2eu8] + d2, 0), d1.len() + 1int + d2.len()) == Ok::<
            NumLit,
            SpecError,
        >(
            NumLit {
                base: 10,
                integer: spec_digits_value(d1, 0, d1.len() as int, 10) as u64,
                fraction: spec_digits_value(d2, 0, d2.len() as int, 10) as u64,
                frac_len: d2.len() as usize,
            },
        ),
{
    let s = d1 + seq![0x2eu8] + d2;
    let n = s.len() as int;
    let n1 = d1.len() as int;
    let fs = n1 + 1;
    assert(forall|i: int| 0 <= i < d1.len() ==> s[i] == d1[i]);
    assert(s[n1] == 0x2e);
    assert(forall|i: int| 0 <= i < d2.len() ==> s[i + fs] == d2[i]);
    // no base prefix can match
    assert(s.len() >= 2 ==> (s[1] == 0x2e || is_digit(s[1], 10)));
    lemma_zeros_run(s, 0);
    let z = spec_skip_zeros(s, 0);
    lemma_skip_zeros_bounds(s, 0);
    assert(z <= n1) by {
        if z > n1 {
            assert(s[n1] == 0x30);
        }
    }
    if z == n1 {
        let j = choose|j: int| 0 <= j < d1.len() && d1[j] != 0x30;
        assert(s[j] == d1[j]);
        assert(false);
    }
    assert(forall|i: int| z <= i < n1 ==> is_digit(s[i], 10));
    assert(!is_digit(s[n1], 10));
    lemma_digits_run_is(s, z, n1, 10);
    lemma_digits_value_skip_zeros(s, 0, z, n1, 10);
    lemma_digits_value_shift(s, 0, d1, 0, n1, 10);
    // the fractional run
    assert(is_digit(s[fs], 10));
    if s[fs] == 0x30 {
        assert(d2.len() == 1);
    } else {
        assert(forall|i: int| fs <= i < n ==> is_digit(s[i], 10));
        lemma_digits_run_is(s, fs, n, 10);
    }
    lemma_digits_value_shift(s, fs, d2, 0, d2.len() as int, 10);
}

/// Law: a numeric literal with a base-16 prefix and a fractional part is
/// rejected with the lexical fractional error, anchored at the literal's
/// start. (Bases of at most ten — the `0b` and `0o` prefixes among them —
/// keep their fractional parts.)
pub proof fn lemma_hex_fraction_rejected(d1: Seq<u8>, d2: Seq<u8>)
    requires
        d1.len() > 0,
        forall|i: int| 0 <= i < d1.len() ==> is_digit(d1[i], 16),
        exists|i: int| 0 <= i < d1.len() && d1[i] != 0x30,
        d2.len() > 0,
        is_digit(d2[0], 16),
    ensures
        spec_numlit(seq![0x30u8, 0x78u8] + d1 + seq![0x2eu8] + d2, 0) is Err,
        spec_numlit(
            seq![0x30u8, 0x78u8] + d1 + seq![0x2eu8] + d2,
            0,
        )->Err_0.kind == ErrorKind::FractionalNotSupported,
        spec_numlit(seq![0x30u8, 0x78u8] + d1 + seq![0x2eu8] + d2, 0)->Err_0.start == 0,
{
    let s = seq![0x30u8, 0x78u8] + d1 + seq![0x2eu8] + d2;
    let n = s.len() as int;
    let n1 = d1.len() as int;
    let dot = 2 + n1;
    let fs = dot + 1;
    assert(s[0] == 0x30 && s[1] == 0x78);
    assert(forall|i: int| 0 <= i < d1.len() ==> s[i + 2] == d1[i]);
    assert(s[dot] == 0x2e);
    assert(s[fs] == d2[0]);
    lemma_zeros_run(s, 2);
    let z = spec_skip_zeros(s, 2);
    lemma_skip_zeros_bounds(s, 2);
    assert(z <= dot) by {
        if z > dot {
            assert(s[dot] == 0x30);
        }
    }
    if z == dot {
        let j = choose|j: int| 0 <= j < d1.len() && d1[j] != 0x30;
        assert(s[j + 2] == d1[j]);
        assert(false);
    }
    assert(forall|i: int| z <= i < dot ==> is_digit(s[i], 16));
    assert(!is_digit(s[dot], 16));
    lemma_digits_run_is(s, z, dot, 16);
    // the fractional run begins, so the base-16 alternative rejects the
    // literal; its failure reaches past every other alternative's
    assert(is_digit(s[fs], 16));
    if s[fs] != 0x30 {
        lemma_skip_digits_bounds(s, fs + 1, 16);
        assert(spec_skip_digits(s, fs, 16) == spec_skip_digits(s, fs + 1, 16));
    }
    let fe = spec_frac_end(s, fs, 16);
    assert(fe >= fs + 1);
    assert(spec_num_base(s, 0, 2, 16) == Err::<(NumLit, int), SpecError>(
        SpecError { kind: ErrorKind::FractionalNotSupported, start: 0, end: fe },
    ));
    assert(spec_num_prefixed(s, 0, 0x78, 16) == Err::<(NumLit, int), SpecError>(
        SpecError { kind: ErrorKind::FractionalNotSupported, start: 0, end: fe },
    ));
    // the bare base-10 alternative stops at the `x`
    lemma_zeros_run(s, 0);
    lemma_skip_zeros_bounds(s, 0);
    assert(spec_skip_zeros(s, 0) == 1);
    assert(!is_digit(s[1], 10));
    lemma_digits_run_is(s, 1, 1, 10);
    assert(spec_num_base(s, 0, 0, 10) == Err::<(NumLit, int), SpecError>(
        SpecError { kind: ErrorKind::ExpectedDigits, start: 1, end: 1 },
    ));
}

impl NumLit {
    /// Parse a literal of one base at `pos`, the prefix already consumed;
    /// `lit_start` anchors error spans at the prefix.
    fn raw_base_parser(s: &[u8], lit_start: usize, pos: usize, base: u8) -> (r: Result<
        (NumLit, usize),
        Diagnostic,
    >)
        requires
            lit_start <= pos <= s@.len(),
            base == 2 || base == 8 || base == 10 || base == 16,
        ensures
            res_m(r, spec_num_base(s@, lit_start as int, pos as int, base)),
            r matches Ok((_, p)) ==> pos < p && p <= s@.len(),
    {
        let mut z: usize = pos;
        while z < s.len() && s[z] == 0x30
            invariant
                pos <= z <= s@.len(),
                spec_skip_zeros(s@, pos as int) == spec_skip_zeros(s@, z as int),
            decreases s@.len() - z,
        {
            z = z + 1;
        }
        let mut ie: usize = z;
        while ie < s.len() && digit_byte(s[ie], base)
            invariant
                z <= ie <= s@.len(),
                spec_skip_digits(s@, z as int, base) == spec_skip_digits(s@, ie as int, base),
            decreases s@.len() - ie,
        {
            ie = ie + 1;
        }
        if ie == z {
            return Err(Diagnostic { kind: ErrorKind::ExpectedDigits, start: z, end: z });
        }
        if ie < s.len() && s[ie] == 0x2e && ie + 1 < s.len() && digit_byte(s[ie + 1], base) {
            let fs = ie + 1;
            let fe: usize = if s[fs] == 0x30 {
                fs + 1
            } else {
                let mut fe: usize = fs;
                while fe < s.len() && digit_byte(s[fe], base)
                    invariant
                        fs <= fe <= s@.len(),
                        spec_skip_digits(s@, fs as int, base) == spec_skip_digits(
                            s@,
                            fe as int,
                            base,
                        ),
                    decreases s@.len() - fe,
                {
                    fe = fe + 1;
                }
                fe
            };
            if base > 10 {
                return Err(
                    Diagnostic { kind: ErrorKind::FractionalNotSupported, start: lit_start, end: fe },
                );
            }
            let iv = digits_value_u64(s, z, ie, base);
            let fv = digits_value_u64(s, fs, fe, base);
            match (iv, fv) {
                (Some(iv), Some(fv)) => Ok(
                    (NumLit { base, integer: iv, fraction: fv, frac_len: fe - fs }, fe),
                ),
                _ => Err(Diagnostic { kind: ErrorKind::NumberTooLarge, start: lit_start, end: fe }),
            }
        } else {
            match digits_value_u64(s, z, ie, base) {
                Some(iv) => Ok((NumLit { base, integer: iv, fraction: 0, frac_len: 0 }, ie)),
                None => Err(Diagnostic { kind: ErrorKind::NumberTooLarge, start: lit_start, end: ie }),
            }
        }
    }

    /// Parse a prefixed literal: the two prefix bytes, then the based rule.
    fn prefixed(s: &[u8], pos: usize, sym: u8, base: u8) -> (r: Result<(NumLit, usize), Diagnostic>)
        requires
            pos <= s@.len(),
            base == 2 || base == 8 || base == 16,
        ensures
            res_m(r, spec_num_prefixed(s@, pos as int, sym, base)),
            r matches Ok((_, p)) ==> pos < p && p <= s@.len(),
    {
        if s.len() - pos >= 2 && s[pos] == 0x30 && s[pos + 1] == sym {
            NumLit::raw_base_parser(s, pos, pos + 2, base)
        } else {
            Err(Diagnostic { kind: ErrorKind::ExpectedNumber, start: pos, end: pos })
        }
    }

    /// Parse a numeric literal at `pos`: `0x`, `0b`, `0o`, then bare
    /// base 10, in that order.
    pub fn parse_at(s: &[u8], pos: usize) -> (r: Result<(NumLit, usize), Diagnostic>)
        requires
            pos <= s@.len(),
        ensures
            res_m(r, spec_numlit(s@, pos as int)),
            r matches Ok((_, p)) ==> pos < p && p <= s@.len(),
    {
        let r16 = NumLit::prefixed(s, pos, 0x78, 16);
        let e16 = match r16 {
            Ok(v) => { return Ok(v) },
            Err(e) => e,
        };
        let r2 = NumLit::prefixed(s, pos, 0x62, 2);
        let e2 = match r2 {
            Ok(v) => { return Ok(v) },
            Err(e) => e,
        };
        let r8 = NumLit::prefixed(s, pos, 0x6f, 8);
        let e8 = match r8 {
            Ok(v) => { return Ok(v) },
            Err(e) => e,
        };
        let r10 = NumLit::raw_base_parser(s, pos, pos, 10);
        match r10 {
            Ok(v) => Ok(v),
            Err(e10) => Err(pick_err(e16, pick_err(e2, pick_err(e8, e10)))),
        }
    }

    /// Parse a whole input as one numeric literal.
    pub fn parse(input: &str) -> (r: Result<NumLit, Diagnostic>)
        ensures
            res_full_m(
                r,
                spec_full(spec_numlit(input.spec_bytes(), 0), input.spec_bytes().len() as int),
            ),
    {
        let s = input.as_bytes();
        match NumLit::parse_at(s, 0) {
            Ok((v, p)) => {
                if p == s.len() {
                    Ok(v)
                } else {
                    Err(Diagnostic { kind: ErrorKind::TrailingInput, start: p, end: s.len() })
                }
            },
            Err(d) => Err(d),
        }
    }
}

} // verus!
