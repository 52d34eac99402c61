use erebus_parser::ast::Ast;
use erebus_parser::expr::Expression;
use erebus_parser::ident::{Ident, IdentWithType};
use erebus_parser::literals::number::NumLit;
use erebus_parser::literals::string::StringLit;
use erebus_parser::statement::{
    CodeScope, FnDef, Let, MaybePublic, RawTopLevelStatement, StructDef,
};
use erebus_parser::type_literal::TypeLiteral;

fn num(x: u64) -> Expression {
    Expression::NumLit(NumLit { base: 10, integer: x, fraction: 0, frac_len: 0 })
}

#[test]
fn test_ast_empty_input() {
    assert_eq!(Ast::parse("").unwrap(), Ast { statements: Vec::new() });
    assert_eq!(Ast::parse(" \n\t ").unwrap(), Ast { statements: Vec::new() });
}

#[test]
fn test_ast_program() {
    let src = "pub let x = 1;\nfn f(a: int) -> String { \"s\" }\nstruct S { a: int }\n";
    let ast = Ast::parse(src).unwrap();
    assert_eq!(
        ast,
        Ast {
            statements: vec![
                MaybePublic {
                    is_pub: true,
                    inner: RawTopLevelStatement::Let(Let {
                        is_mut: false,
                        left: Ident::from_str("x").into(),
                        right: num(1),
                    }),
                },
                MaybePublic {
                    is_pub: false,
                    inner: RawTopLevelStatement::FnDef(FnDef {
                        name: Ident::from_str("f"),
                        params: vec![IdentWithType {
                            ident: Ident::from_str("a"),
                            ty: TypeLiteral::Ident(Ident::from_str("int")),
                        }],
                        return_type: TypeLiteral::Ident(Ident::from_str("String")),
                        body: CodeScope {
                            statements: Vec::new(),
                            expr: Expression::StringLit(StringLit(b"s".to_vec())),
                        },
                    }),
                },
                MaybePublic {
                    is_pub: false,
                    inner: RawTopLevelStatement::StructDef(StructDef {
                        name: Ident::from_str("S"),
                        fields: vec![IdentWithType {
                            ident: Ident::from_str("a"),
                            ty: TypeLiteral::Ident(Ident::from_str("int")),
                        }],
                    }),
                },
            ],
        }
    );
}

#[test]
fn test_ast_leading_whitespace_before_pub() {
    let ast = Ast::parse("  pub let x = 1;").unwrap();
    assert_eq!(ast.statements.len(), 1);
    assert!(ast.statements[0].is_pub);
}

#[test]
fn test_ast_reports_diagnostics() {
    let diags = Ast::parse("let x = ;").unwrap_err();
    assert_eq!(diags.len(), 1);
    let d = &diags[0];
    assert!(d.message().len() > 0);
    let (start, end) = d.span();
    assert!(start <= end);
    assert!(end <= "let x = ;".len());
}

#[test]
fn test_ast_trailing_garbage_fails() {
    assert!(Ast::parse("let x = 1; @@@").is_err());
    assert!(Ast::parse("fn f() ->").is_err());
}

#[test]
fn test_top_level_let_requires_semicolon() {
    assert!(Ast::parse("let x = 1").is_err());
    assert!(Ast::parse("let x = 1;").is_ok());
}

#[test]
fn test_pub_keyword_boundary() {
    // `pubfn` blends the keyword into an identifier: no declaration parses
    assert!(Ast::parse("pubfn f() -> T { 1 }").is_err());
    assert!(Ast::parse("pub fn f() -> T { 1 }").is_ok());
}
