use std::collections::HashSet;
use symb_anafis::ast::Expr;
use symb_anafis::number::Num;

#[test]
fn differentiation_test_derive_sinh() {
    let expr = Expr::FunctionCall {
        name: "sinh".to_string(),
        args: vec![Expr::Symbol("x".to_string())],
    };
    let result = expr.derive("x", &HashSet::new());
    assert!(matches!(result, Expr::Mul(_, _)));
}

#[test]
fn differentiation_test_derive_subtraction() {
    // (x - 1)' = 1 - 0
    let expr = Expr::Sub(
        Box::new(Expr::Symbol("x".to_string())),
        Box::new(Expr::Number(Num::integer(1))),
    );
    let result = expr.derive("x", &HashSet::new());
    assert!(matches!(result, Expr::Sub(_, _)));
}

#[test]
fn differentiation_test_derive_division() {
    // (x / 2)' = (1*2 - x*0) / 2^2
    let expr = Expr::Div(
        Box::new(Expr::Symbol("x".to_string())),
        Box::new(Expr::Number(Num::integer(2))),
    );
    let result = expr.derive("x", &HashSet::new());
    assert!(matches!(result, Expr::Div(_, _)));
}

#[test]
fn differentiation_test_logarithmic_differentiation() {
    // x^x uses logarithmic differentiation
    let expr = Expr::Pow(
        Box::new(Expr::Symbol("x".to_string())),
        Box::new(Expr::Symbol("x".to_string())),
    );
    let result = expr.derive("x", &HashSet::new());
    assert!(matches!(result, Expr::Mul(_, _)));
}

#[test]
fn differentiation_test_derivative_order_increment() {
    let derivative_symbol = Expr::Symbol("∂^1_f(x)/∂_x^1".to_string());
    let result = derivative_symbol.derive("x", &HashSet::new());
    match result {
        Expr::Symbol(name) => assert_eq!(name, "∂^2_f(x)/∂_x^2"),
        _ => panic!("Expected symbol, got {:?}", result),
    }
}

#[test]
fn differentiation_test_derivative_order_increment_multi_digit() {
    let ninth_symbol = Expr::Symbol("∂^9_f(x)/∂_x^9".to_string());
    let result = ninth_symbol.derive("x", &HashSet::new());
    match result {
        Expr::Symbol(name) => assert_eq!(name, "∂^10_f(x)/∂_x^10"),
        _ => panic!("Expected symbol, got {:?}", result),
    }

    let ninety_ninth_symbol = Expr::Symbol("∂^99_f(x)/∂_x^99".to_string());
    let result = ninety_ninth_symbol.derive("x", &HashSet::new());
    match result {
        Expr::Symbol(name) => assert_eq!(name, "∂^100_f(x)/∂_x^100"),
        _ => panic!("Expected symbol, got {:?}", result),
    }
}

#[test]
fn derivative_symbol_in_another_variable_is_zero() {
    let derivative_symbol = Expr::Symbol("∂^1_f(x)/∂_x^1".to_string());
    let result = derivative_symbol.derive("y", &HashSet::new());
    match result {
        Expr::Number(n) => assert!(n.is_zero()),
        _ => panic!("Expected zero, got {:?}", result),
    }
    match derivative_symbol.derive("x", &HashSet::new()) {
        Expr::Symbol(name) => assert_eq!(name, "∂^2_f(x)/∂_x^2"),
        other => panic!("Expected symbol, got {:?}", other),
    }
}
