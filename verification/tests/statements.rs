use erebus_parser::expr::Expression;
use erebus_parser::ident::{Ident, IdentWithType};
use erebus_parser::literals::number::NumLit;
use erebus_parser::literals::string::StringLit;
use erebus_parser::statement::{CodeScope, FnDef, Let, Statement, StructDef};
use erebus_parser::type_literal::TypeLiteral;

fn num(x: u64) -> Expression {
    Expression::NumLit(NumLit { base: 10, integer: x, fraction: 0, frac_len: 0 })
}

#[test]
fn test_let() {
    assert_eq!(
        Let::parse("let _test = 123").unwrap(),
        Let { is_mut: false, left: Ident::from_str("_test").into(), right: num(123) }
    );
    assert_eq!(
        Let::parse("let mut o:String=\"helloTest\"").unwrap(),
        Let {
            is_mut: true,
            left: IdentWithType {
                ident: Ident::from_str("o"),
                ty: TypeLiteral::Ident(Ident::from_str("String")),
            }
            .into(),
            right: Expression::StringLit(StringLit(b"helloTest".to_vec())),
        }
    );

    assert!(Let::parse("letmut a = 321").is_err());
    assert!(Let::parse("let mut 1 = 321").is_err());
    assert!(Let::parse("let mut a == 321").is_err());
}

#[test]
fn statement_test_let() {
    assert_eq!(
        Let::parse("let _test = 123").unwrap(),
        Let { is_mut: false, left: Ident::from_str("_test").into(), right: num(123) }
    );
    assert_eq!(
        Let::parse("let mut o:String=\"helloTest\"").unwrap(),
        Let {
            is_mut: true,
            left: IdentWithType {
                ident: Ident::from_str("o"),
                ty: TypeLiteral::Ident(Ident::from_str("String")),
            }
            .into(),
            right: Expression::StringLit(StringLit(b"helloTest".to_vec())),
        }
    );

    assert!(Let::parse("letmut a = 321").is_err());
    assert!(Let::parse("let mut 1 = 321").is_err());
    assert!(Let::parse("let mut a == 321").is_err());
}

#[test]
fn test_fn() {
    assert_eq!(
        FnDef::parse("fn basic_test_fn(arg1: int) -> String { \"test\" }").unwrap(),
        FnDef {
            name: Ident::from_str("basic_test_fn"),
            params: vec![IdentWithType {
                ident: Ident::from_str("arg1"),
                ty: TypeLiteral::Ident(Ident::from_str("int")),
            }],
            return_type: TypeLiteral::Ident(Ident::from_str("String")),
            body: CodeScope {
                statements: Vec::new(),
                expr: Expression::StringLit(StringLit(b"test".to_vec())),
            },
        }
    );
}

#[test]
fn statement_test_fn() {
    assert_eq!(
        FnDef::parse("fn basic_test_fn(arg1: int) -> String { \"test\" }").unwrap(),
        FnDef {
            name: Ident::from_str("basic_test_fn"),
            params: vec![IdentWithType {
                ident: Ident::from_str("arg1"),
                ty: TypeLiteral::Ident(Ident::from_str("int")),
            }],
            return_type: TypeLiteral::Ident(Ident::from_str("String")),
            body: CodeScope {
                statements: Vec::new(),
                expr: Expression::StringLit(StringLit(b"test".to_vec())),
            },
        }
    );
}

#[test]
fn test_struct_def() {
    assert_eq!(
        StructDef::parse("struct SimpleTest { a: int, b: String, }").unwrap(),
        StructDef {
            name: Ident::from_str("SimpleTest"),
            fields: vec![
                IdentWithType {
                    ident: Ident::from_str("a"),
                    ty: TypeLiteral::Ident(Ident::from_str("int")),
                },
                IdentWithType {
                    ident: Ident::from_str("b"),
                    ty: TypeLiteral::Ident(Ident::from_str("String")),
                },
            ],
        }
    );
}

#[test]
fn test_statement() {
    assert_eq!(
        Statement::parse("let var = \"simple_let\";").unwrap(),
        Statement::Let(Let {
            is_mut: false,
            left: Ident::from_str("var").into(),
            right: Expression::StringLit(StringLit(b"simple_let".to_vec())),
        })
    );

    assert!(Statement::parse("let missing_semicolon = 1").is_err());
}

#[test]
fn statement_test_statement() {
    assert_eq!(
        Statement::parse("let var = \"simple_let\";").unwrap(),
        Statement::Let(Let {
            is_mut: false,
            left: Ident::from_str("var").into(),
            right: Expression::StringLit(StringLit(b"simple_let".to_vec())),
        })
    );

    assert!(Statement::parse("let missing_semicolon = 1").is_err());
}

#[test]
fn test_let_without_semicolon_as_bare_rule() {
    // the bare `let` rule is reusable without a terminator, while the
    // block-interior statement demands one
    assert!(Let::parse("let missing_semicolon = 1").is_ok());
    assert!(Statement::parse("let missing_semicolon = 1").is_err());
}

#[test]
fn test_fn_no_trailing_comma_in_params() {
    assert!(FnDef::parse("fn f(a: int,) -> T { 1 }").is_err());
}
