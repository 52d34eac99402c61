use erebus_parser::diag::{ErrorKind, Tok};
use erebus_parser::ident::Ident;
use erebus_parser::type_literal::{FnSignatureType, TupleType, TypeLiteral};

#[test]
fn test_fn_signature_type() {
    assert_eq!(
        FnSignatureType::parse("fn()").unwrap(),
        FnSignatureType {
            params: Vec::new(),
            return_type: TypeLiteral::Tuple(TupleType(Vec::new())),
        }
    );
}

#[test]
fn test_tuple_type() {
    assert_eq!(TupleType::parse("()").unwrap(), TupleType(Vec::new()));
    assert_eq!(
        TupleType::parse("((()))").unwrap(),
        TupleType(vec![TypeLiteral::Tuple(TupleType(vec![TypeLiteral::Tuple(TupleType(
            Vec::new()
        ))]))])
    );

    assert!(TupleType::parse("(,)").is_err());
}

#[test]
fn test_type() {
    assert_eq!(
        TypeLiteral::parse("String").unwrap(),
        TypeLiteral::Ident(Ident::from_str("String"))
    );
    assert_eq!(
        TypeLiteral::parse("fn(int,) -> String").unwrap(),
        TypeLiteral::Fn(Box::new(FnSignatureType {
            params: vec![TypeLiteral::Ident(Ident::from_str("int"))],
            return_type: TypeLiteral::Ident(Ident::from_str("String")),
        }))
    );
    assert_eq!(
        TypeLiteral::parse("(String, (int, T))").unwrap(),
        TypeLiteral::Tuple(TupleType(vec![
            TypeLiteral::Ident(Ident::from_str("String")),
            TypeLiteral::Tuple(TupleType(vec![
                TypeLiteral::Ident(Ident::from_str("int")),
                TypeLiteral::Ident(Ident::from_str("T")),
            ])),
        ]))
    );
}

#[test]
fn test_type_default_is_unit() {
    assert_eq!(TypeLiteral::default(), TypeLiteral::Tuple(TupleType(Vec::new())));
    assert_eq!(TupleType::unit(), TupleType(Vec::new()));
}

#[test]
fn test_fn_signature_missing_return_type() {
    // a broken type after the arrow abandons the arrow too, so only the
    // trailing text remains and the whole-input parse rejects it
    assert!(FnSignatureType::parse("fn() -> ").is_err());
    // with something after the signature, the arrow alternative backtracks
    assert_eq!(
        TypeLiteral::parse("fn(int)").unwrap(),
        TypeLiteral::Fn(Box::new(FnSignatureType {
            params: vec![TypeLiteral::Ident(Ident::from_str("int"))],
            return_type: TypeLiteral::Tuple(TupleType(Vec::new())),
        }))
    );
}

#[test]
fn test_type_keyword_boundary() {
    // `fnx` is no `fn` keyword: the named-type alternative takes it whole
    assert_eq!(
        TypeLiteral::parse("fnx").unwrap(),
        TypeLiteral::Ident(Ident::from_str("fnx"))
    );
}

#[test]
fn test_type_expected_token_kinds() {
    // an unclosed tuple wants its right parenthesis
    assert_eq!(
        TupleType::parse("(int").unwrap_err().kind,
        ErrorKind::Expected(Tok::RParen)
    );
}
