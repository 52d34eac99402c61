use erebus_parser::diag::ErrorKind;
use erebus_parser::ident::{Ident, IdentWithOptionalType, IdentWithType};
use erebus_parser::type_literal::TypeLiteral;

#[test]
fn test_ident() {
    assert_eq!(Ident::parse("_albert132").unwrap(), Ident::from_str("_albert132"));
    assert!(Ident::parse("1starts_number").is_err());
    assert!(Ident::parse(" starts_space123").is_err());
}

#[test]
fn test_ident_round_trip() {
    // the raw text of a parsed identifier re-parses to the same value
    let id = Ident::parse("_albert132").unwrap();
    let rendered = String::from_utf8(id.0.clone()).unwrap();
    assert_eq!(Ident::parse(&rendered).unwrap(), id);
}

#[test]
fn test_ident_error_position() {
    // the failure sits after the underscores
    let e = Ident::parse("__1x").unwrap_err();
    assert_eq!(e.kind, ErrorKind::ExpectedIdent);
    assert_eq!(e.span(), (2, 2));
    // only underscores is not an identifier
    assert!(Ident::parse("___").is_err());
}

#[test]
fn test_ident_with_type() {
    assert_eq!(
        IdentWithType::parse("test: String").unwrap(),
        IdentWithType {
            ident: Ident::from_str("test"),
            ty: TypeLiteral::Ident(Ident::from_str("String")),
        }
    );
    assert_eq!(
        IdentWithType::parse("test2: \n_String").unwrap(),
        IdentWithType {
            ident: Ident::from_str("test2"),
            ty: TypeLiteral::Ident(Ident::from_str("_String")),
        }
    );
    assert!(IdentWithType::parse("test3 : String").is_err());
}

#[test]
fn test_ident_with_optional_type() {
    assert_eq!(
        IdentWithOptionalType::parse("test").unwrap(),
        IdentWithOptionalType { ident: Ident::from_str("test"), ty: None }
    );
    assert_eq!(
        IdentWithOptionalType::parse("str: \n\tString").unwrap(),
        IdentWithOptionalType {
            ident: Ident::from_str("str"),
            ty: Some(TypeLiteral::Ident(Ident::from_str("String"))),
        }
    );
}

#[test]
fn test_ident_with_optional_type_from() {
    assert_eq!(
        IdentWithOptionalType::from(Ident::from_str("a")),
        IdentWithOptionalType { ident: Ident::from_str("a"), ty: None }
    );
    let iwt = IdentWithType {
        ident: Ident::from_str("a"),
        ty: TypeLiteral::Ident(Ident::from_str("int")),
    };
    assert_eq!(
        IdentWithOptionalType::from(iwt),
        IdentWithOptionalType {
            ident: Ident::from_str("a"),
            ty: Some(TypeLiteral::Ident(Ident::from_str("int"))),
        }
    );
}
