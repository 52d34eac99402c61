use erebus_parser::diag::ErrorKind;
use erebus_parser::literals::number::NumLit;

/// The floating value a literal denotes:
/// `integer + fraction / base^frac_len`.
fn value_of(n: &NumLit) -> f64 {
    let int = n.integer as f64;
    if n.frac_len == 0 {
        return int;
    }
    let mut fractional = n.fraction as f64;
    fractional /= (n.base as u32).pow(n.frac_len as u32) as f64;
    int + fractional
}

#[test]
fn test_num_literal() {
    assert_eq!(value_of(&NumLit::parse("1234.4321").unwrap()), 1234.4321);
    assert_eq!(value_of(&NumLit::parse("000743.6400").unwrap()), 743.64);

    assert_eq!(value_of(&NumLit::parse("0xFF3B").unwrap()), 0xFF3B as f64);
    assert_eq!(
        value_of(&NumLit::parse("0b101011.0").unwrap()),
        0b101011 as f64
    );

    assert!(NumLit::parse("0x123.FF").is_err());
    assert!(NumLit::parse("0b1013").is_err());
    assert!(NumLit::parse("0b101.103").is_err());

    assert!(NumLit::parse(" 1.2 ").is_err());
    assert!(NumLit::parse("1. 2").is_err());
    assert!(NumLit::parse("1 .2").is_err());
    assert!(NumLit::parse("1 . 2").is_err());
}

#[test]
fn test_num_components() {
    assert_eq!(
        NumLit::parse("1234.4321").unwrap(),
        NumLit { base: 10, integer: 1234, fraction: 4321, frac_len: 4 }
    );
    assert_eq!(
        NumLit::parse("000743.6400").unwrap(),
        NumLit { base: 10, integer: 743, fraction: 6400, frac_len: 4 }
    );
    assert_eq!(
        NumLit::parse("0xFF3B").unwrap(),
        NumLit { base: 16, integer: 0xFF3B, fraction: 0, frac_len: 0 }
    );
}

#[test]
fn test_num_value_bases() {
    // each base denotes the exact integer value of its digit string
    assert_eq!(
        NumLit::parse("0x1F").unwrap(),
        NumLit { base: 16, integer: 31, fraction: 0, frac_len: 0 }
    );
    assert_eq!(
        NumLit::parse("0b101").unwrap(),
        NumLit { base: 2, integer: 5, fraction: 0, frac_len: 0 }
    );
    assert_eq!(
        NumLit::parse("0o17").unwrap(),
        NumLit { base: 8, integer: 15, fraction: 0, frac_len: 0 }
    );
    assert_eq!(
        NumLit::parse("42").unwrap(),
        NumLit { base: 10, integer: 42, fraction: 0, frac_len: 0 }
    );
    // base 10 only: int.frac denotes int + frac / 10^len(frac)
    assert_eq!(
        NumLit::parse("1.5").unwrap(),
        NumLit { base: 10, integer: 1, fraction: 5, frac_len: 1 }
    );
    assert_eq!(value_of(&NumLit::parse("1.5").unwrap()), 1.5);
}

#[test]
fn test_fractional_rejected() {
    // a fractional part under a base-16 prefix is a lexical failure
    // spanning the whole literal
    let e = NumLit::parse("0x123.FF").unwrap_err();
    assert_eq!(e.kind, ErrorKind::FractionalNotSupported);
    assert_eq!(e.span(), (0, 8));
    assert!(e.message().len() > 0);
    // bases of at most ten keep their fractional parts
    assert_eq!(
        NumLit::parse("0b1.1").unwrap(),
        NumLit { base: 2, integer: 1, fraction: 1, frac_len: 1 }
    );
    assert_eq!(
        NumLit::parse("0o1.1").unwrap(),
        NumLit { base: 8, integer: 1, fraction: 1, frac_len: 1 }
    );
}

#[test]
fn test_num_error_kinds() {
    // a bare prefix has no digits
    assert_eq!(NumLit::parse("0x").unwrap_err().kind, ErrorKind::ExpectedDigits);
    // no literal at all: the first alternative's failure is reported
    assert_eq!(NumLit::parse("zz").unwrap_err().kind, ErrorKind::ExpectedNumber);
    // a value beyond 64 bits is rejected, not wrapped
    assert_eq!(
        NumLit::parse("99999999999999999999999999").unwrap_err().kind,
        ErrorKind::NumberTooLarge
    );
    // a digit invalid in the base merely ends the literal, which the
    // whole-input parse then rejects as trailing
    assert_eq!(NumLit::parse("0b1013").unwrap_err().kind, ErrorKind::TrailingInput);
}

#[test]
fn test_num_lone_zero_rejected() {
    // zero-skipping consumes the only digit and the mandatory digit run
    // then finds nothing: a literal of zeros alone is rejected
    assert_eq!(NumLit::parse("0").unwrap_err().kind, ErrorKind::ExpectedDigits);
    assert_eq!(NumLit::parse("00").unwrap_err().kind, ErrorKind::ExpectedDigits);
    // with a nonzero digit after the zeros, the run begins there
    assert_eq!(
        NumLit::parse("007").unwrap(),
        NumLit { base: 10, integer: 7, fraction: 0, frac_len: 0 }
    );
}
