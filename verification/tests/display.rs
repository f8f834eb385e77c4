use symb_anafis::ast::Expr;
use symb_anafis::number::Num;

#[test]
fn test_display_number() {
    let expr = Expr::Number(Num::integer(3));
    assert_eq!(expr.to_display_string(), "3");

    let expr = Expr::Number(Num::new(314, 2));
    assert_eq!(expr.to_display_string(), "3.14");
}

#[test]
fn test_display_symbol() {
    let expr = Expr::Symbol("x".to_string());
    assert_eq!(expr.to_display_string(), "x");
}

#[test]
fn test_display_addition() {
    let expr = Expr::Add(
        Box::new(Expr::Symbol("x".to_string())),
        Box::new(Expr::Number(Num::integer(1))),
    );
    assert_eq!(expr.to_display_string(), "(x + 1)");
}

#[test]
fn test_display_multiplication() {
    let expr = Expr::Mul(
        Box::new(Expr::Symbol("x".to_string())),
        Box::new(Expr::Number(Num::integer(2))),
    );
    assert_eq!(expr.to_display_string(), "x * 2");
}

#[test]
fn test_display_function() {
    let expr = Expr::FunctionCall {
        name: "sin".to_string(),
        args: vec![Expr::Symbol("x".to_string())],
    };
    assert_eq!(expr.to_display_string(), "sin(x)");
}

#[test]
fn test_display_negative_term() {
    let expr = Expr::Mul(
        Box::new(Expr::Number(Num::integer(-1))),
        Box::new(Expr::Symbol("x".to_string())),
    );
    assert_eq!(expr.to_display_string(), "-x");

    let expr2 = Expr::Mul(
        Box::new(Expr::Number(Num::integer(-1))),
        Box::new(Expr::FunctionCall {
            name: "sin".to_string(),
            args: vec![Expr::Symbol("x".to_string())],
        }),
    );
    assert_eq!(expr2.to_display_string(), "-sin(x)");
}
