use erebus_parser::bin_ops::BinExpr;
use erebus_parser::diag::ErrorKind;
use erebus_parser::expr::{Expression, FnCall, Variable};
use erebus_parser::ident::Ident;
use erebus_parser::literals::number::NumLit;
use erebus_parser::literals::string::StringLit;
use erebus_parser::statement::{CodeScope, Let, Statement};

fn num(x: u64) -> Expression {
    Expression::NumLit(NumLit { base: 10, integer: x, fraction: 0, frac_len: 0 })
}

fn bx(b: BinExpr) -> Expression {
    Expression::BinExpr(Box::new(b))
}

#[test]
fn test_bin_expr() {
    assert_eq!(
        BinExpr::parse("1 + 1").unwrap(),
        BinExpr::Add(vec![num(1), num(1)])
    );
    // `*` and `/` bind tighter than `+`: the right operand of `+` is the
    // whole `2 * 3 / 4`, itself right-associated
    assert_eq!(
        BinExpr::parse("1 + 2 * 3 / 4").unwrap(),
        BinExpr::Add(vec![
            num(1),
            bx(BinExpr::Mul(vec![num(2), bx(BinExpr::Div(vec![num(3), num(4)]))])),
        ])
    );
    assert_eq!(
        BinExpr::parse("3 + 2 - 1").unwrap(),
        BinExpr::Add(vec![num(3), bx(BinExpr::Sub(vec![num(2), num(1)]))])
    );
    // a run of one operator is a single n-ary chain: three operands under
    // one addition
    assert_eq!(
        Expression::parse("1 * 2 + 3 * 4 + 5 == 6").unwrap(),
        bx(BinExpr::Equals(vec![
            bx(BinExpr::Add(vec![
                bx(BinExpr::Mul(vec![num(1), num(2)])),
                bx(BinExpr::Mul(vec![num(3), num(4)])),
                num(5),
            ])),
            num(6),
        ]))
    );
}

#[test]
fn test_bin_expr_nary_chain() {
    assert_eq!(
        BinExpr::parse("1 + 2 + 3").unwrap(),
        BinExpr::Add(vec![num(1), num(2), num(3)])
    );
}

#[test]
fn test_scope() {
    assert_eq!(
        CodeScope::parse("{ 1 }").unwrap(),
        CodeScope { statements: Vec::new(), expr: num(1) }
    );

    assert_eq!(
        CodeScope::parse("{let mut test = \"Statement\";\n             \"TestStatement\"}")
            .unwrap(),
        CodeScope {
            statements: vec![Statement::Let(Let {
                is_mut: true,
                left: Ident::from_str("test").into(),
                right: Expression::StringLit(StringLit(b"Statement".to_vec())),
            })],
            expr: Expression::StringLit(StringLit(b"TestStatement".to_vec())),
        }
    );
}

#[test]
fn test_scope_requires_tail_expression() {
    // a block always yields a value: statements alone are not enough
    assert!(CodeScope::parse("{ let a = 1; }").is_err());
    assert!(CodeScope::parse("{ }").is_err());
}

#[test]
fn test_fn_call() {
    assert_eq!(
        FnCall::parse("simple_test(123)").unwrap(),
        FnCall { fn_name: Ident::from_str("simple_test"), args: vec![num(123)] }
    );
}

#[test]
fn test_fn_call_args() {
    assert_eq!(
        FnCall::parse("f()").unwrap(),
        FnCall { fn_name: Ident::from_str("f"), args: Vec::new() }
    );
    assert_eq!(
        FnCall::parse("f(1 + 2, g(3))").unwrap(),
        FnCall {
            fn_name: Ident::from_str("f"),
            args: vec![
                bx(BinExpr::Add(vec![num(1), num(2)])),
                Expression::FnCall(FnCall {
                    fn_name: Ident::from_str("g"),
                    args: vec![num(3)],
                }),
            ],
        }
    );
    // no trailing comma in call arguments
    assert!(FnCall::parse("f(1,)").is_err());
}

#[test]
fn test_variable() {
    assert_eq!(
        Variable::parse("var_name").unwrap(),
        Variable(Ident::from_str("var_name"))
    );
    assert!(Variable::parse("1test").is_err());
}

#[test]
fn test_call_as_chain_operand() {
    // call arguments recurse through the top-level expression entry, so a
    // call with a loose-operator argument can stand as a tight operand
    assert_eq!(
        Expression::parse("f(1 + 2) * 3").unwrap(),
        bx(BinExpr::Mul(vec![
            Expression::FnCall(FnCall {
                fn_name: Ident::from_str("f"),
                args: vec![bx(BinExpr::Add(vec![num(1), num(2)]))],
            }),
            num(3),
        ]))
    );
}

#[test]
fn test_expression_no_alternative() {
    // above every operator's rank no chain is admitted, and nothing else
    // begins with a minus
    let e = Expression::parse_at(b"-", 0, 4).unwrap_err();
    assert_eq!(e.kind, ErrorKind::ExpectedExpression);
}
