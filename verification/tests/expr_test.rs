use pkl_bindgen::syntax::expr::{parse_expr, parse_fn_call, parse_member_expr_member, AstPklValue, ExprMember, FuncCall, PklExpr};
use pkl_bindgen::syntax::lexer::{lex, PklToken};

fn s(t: &str) -> String {
    t.to_string()
}

fn id(t: &str) -> PklExpr {
    PklExpr::Identifier(s(t))
}

#[test]
fn test_parse_call_with_arguments() {
    let ts = lex("foo(1, \"a\", bar, 0x10)").unwrap();
    let n = ts.len();
    let r = parse_expr(&ts, 0);
    assert_eq!(
        r,
        Ok((
            PklExpr::FuncCall(FuncCall(
                s("foo"),
                vec![
                    PklExpr::Value(AstPklValue::Int(1)),
                    PklExpr::Value(AstPklValue::String(s("a"))),
                    id("bar"),
                    PklExpr::Value(AstPklValue::Int(16)),
                ]
            )),
            n
        ))
    );
}

#[test]
fn test_parse_call_with_members_and_nested_call() {
    let ts = lex("f(a.b, c.g(true), h())").unwrap();
    let r = parse_expr(&ts, 0).unwrap().0;
    assert_eq!(
        r,
        PklExpr::FuncCall(FuncCall(
            s("f"),
            vec![
                PklExpr::MemberExpression(Box::new(id("a")), ExprMember::Identifier(s("b"))),
                PklExpr::MemberExpression(
                    Box::new(id("c")),
                    ExprMember::FuncCall(FuncCall(s("g"), vec![PklExpr::Value(AstPklValue::Bool(true))]))
                ),
                PklExpr::FuncCall(FuncCall(s("h"), vec![])),
            ]
        ))
    );
}

#[test]
fn test_parse_call_errors() {
    let ts = lex("f(1 2)").unwrap();
    assert_eq!(parse_expr(&ts, 0), Err((s("unexpected token here"), 3)));
    let ts = lex("f(1").unwrap();
    assert_eq!(parse_expr(&ts, 0), Err((s("Missing list close parenthesis"), 2)));
    let ts = lex("f(.)").unwrap();
    assert_eq!(parse_expr(&ts, 0), Err((s("unexpected token here"), 1)));
    let ts = lex("f(null)").unwrap();
    assert_eq!(parse_expr(&ts, 0), Err((s("unexpected token here"), 1)));
    let ts = lex("f(new Foo {})").unwrap();
    assert_eq!(parse_expr(&ts, 0), Err((s("class instances are not supported here"), 1)));
}

#[test]
fn test_parse_fn_call_after_name() {
    let ts = lex("g(x)").unwrap();
    assert_eq!(ts[0], PklToken::FunctionCall(s("g")));
    assert_eq!(parse_fn_call(&ts, 1, s("g")), Ok((FuncCall(s("g"), vec![id("x")]), 3)));
}

#[test]
fn test_parse_member() {
    let ts = lex("  \nname").unwrap();
    assert_eq!(parse_member_expr_member(&ts, 0), Ok((ExprMember::Identifier(s("name")), 4)));
    let ts = lex(" 1").unwrap();
    assert_eq!(parse_member_expr_member(&ts, 0), Err((s("unexpected token, expected identifier"), 1)));
    assert_eq!(parse_member_expr_member(&ts, 2), Err((s("expected identifier but got nothing"), 2)));
}

#[test]
fn test_parse_simple_expressions() {
    let ts = lex("  // c\n null").unwrap();
    let n = ts.len();
    assert_eq!(parse_expr(&ts, 0), Ok((PklExpr::Value(AstPklValue::Null), n)));
    let ts = lex("-1.5e3").unwrap();
    assert_eq!(parse_expr(&ts, 0), Ok((PklExpr::Value(AstPklValue::Float(s("-1.5e3"))), 1)));
    let ts = lex("`x y`").unwrap();
    assert_eq!(parse_expr(&ts, 0), Ok((id("x y"), 1)));
    assert_eq!(parse_expr(&ts, 1), Err((s("empty expressions are not allowed"), 1)));
    let ts = lex("(Foo) {}").unwrap();
    assert_eq!(parse_expr(&ts, 0), Err((s("amended objects are not supported here"), 0)));
    let ts = lex("= 1").unwrap();
    assert_eq!(parse_expr(&ts, 0), Err((s("unexpected token here"), 0)));
}
