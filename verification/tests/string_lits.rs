use erebus_parser::diag::ErrorKind;
use erebus_parser::literals::string::StringLit;

#[test]
fn test_string_lit() {
    assert_eq!(
        StringLit::parse(r#""Test\n\" newline escape""#).unwrap(),
        StringLit(b"Test\n\" newline escape".to_vec())
    );
    assert_eq!(
        StringLit::parse(r#""Test backslash\\ escape""#).unwrap(),
        StringLit(b"Test backslash\\ escape".to_vec())
    );
    assert_eq!(
        StringLit::parse("\"proper multi-\\\nline\"").unwrap(),
        StringLit(b"proper multi-line".to_vec())
    );

    assert!(StringLit::parse(r#""missing \" "#).is_err());
    assert!(StringLit::parse("\"random\nnewline\"").is_err());
}

#[test]
fn string_test_string_lit() {
    assert_eq!(
        StringLit::parse(r#""Test\n\" newline escape""#).unwrap(),
        StringLit(b"Test\n\" newline escape".to_vec())
    );
    assert_eq!(
        StringLit::parse(r#""Test backslash\\ escape""#).unwrap(),
        StringLit(b"Test backslash\\ escape".to_vec())
    );
    assert_eq!(
        StringLit::parse("\"proper multi-\\\nline\"").unwrap(),
        StringLit(b"proper multi-line".to_vec())
    );

    assert!(StringLit::parse(r#""missing \" "#).is_err());
    assert!(StringLit::parse("\"random\nnewline\"").is_err());
}

#[test]
fn test_string_carriage_return_continuation() {
    // a backslash before a carriage-return/line-feed pair is one line
    // continuation
    assert_eq!(
        StringLit::parse("\"a\\\r\nb\"").unwrap(),
        StringLit(b"ab".to_vec())
    );
    // a raw carriage return is an ordinary byte
    assert_eq!(
        StringLit::parse("\"a\rb\"").unwrap(),
        StringLit(b"a\rb".to_vec())
    );
}

#[test]
fn test_string_unknown_escape_keeps_backslash() {
    // a backslash beginning no recognized escape stands for itself
    assert_eq!(
        StringLit::parse(r#""a\qb""#).unwrap(),
        StringLit(b"a\\qb".to_vec())
    );
}

#[test]
fn test_string_unterminated_kinds() {
    let e = StringLit::parse("\"abc").unwrap_err();
    assert_eq!(e.kind, ErrorKind::UnterminatedString);
    assert_eq!(e.span(), (4, 4));
    let e = StringLit::parse("\"ab\ncd\"").unwrap_err();
    assert_eq!(e.kind, ErrorKind::UnterminatedString);
    assert_eq!(e.span(), (3, 3));
}
