use std::collections::HashSet;
use symb_anafis::ast::display::format_mul_operand;
use symb_anafis::ast::Expr;
use symb_anafis::number::Num;

fn sym(s: &str) -> Expr {
    Expr::Symbol(s.to_string())
}

fn num(i: i64) -> Expr {
    Expr::Number(Num::integer(i))
}

#[test]
fn product_rule_value() {
    let e = Expr::Mul(Box::new(sym("x")), Box::new(sym("y")));
    let d = e.derive("x", &HashSet::new());
    assert_eq!(d.to_display_string(), "(1 * y + x * 0)");
}

#[test]
fn fixed_variables_are_constants() {
    let mut fixed = HashSet::new();
    fixed.insert("x".to_string());
    let d = sym("x").derive("x", &fixed);
    assert!(matches!(d, Expr::Number(n) if n == Num::integer(0)));
}

#[test]
fn unknown_function_partial_symbol() {
    let e = Expr::FunctionCall { name: "f".to_string(), args: vec![sym("x"), num(2)] };
    let d = e.derive("x", &HashSet::new());
    assert_eq!(d.to_display_string(), "∂^1_f(x, 2)/∂_x^1 * 1");
}

#[test]
fn wrong_arity_gives_a_derivative_symbol() {
    let e = Expr::FunctionCall { name: "besselj".to_string(), args: vec![sym("x")] };
    let d = e.derive("x", &HashSet::new());
    assert!(matches!(&d, Expr::Symbol(s) if s == "∂_besselj(x)/∂_x"));
}

#[test]
fn order_notation_edge_cases() {
    // a negative order is read and raised
    let d = sym("∂^-3_f(x)/∂_x^-3").derive("x", &HashSet::new());
    assert!(matches!(&d, Expr::Symbol(s) if s == "∂^-2_f(x)/∂_x^-2"));
    // no order after the separator: an ordinary symbol
    let d2 = sym("∂^1_f(x)/∂_x").derive("x", &HashSet::new());
    assert!(matches!(d2, Expr::Number(n) if n == Num::integer(0)));
    // in another variable the derivative symbol is a constant
    let d3 = sym("∂^2_g/∂_t^2").derive("s", &HashSet::new());
    assert!(matches!(d3, Expr::Number(n) if n == Num::integer(0)));
    let d4 = sym("∂^2_g/∂_t^2").derive("t", &HashSet::new());
    assert!(matches!(&d4, Expr::Symbol(s) if s == "∂^3_g/∂_t^3"));
}

#[test]
fn operand_formatting() {
    let sum = Expr::Add(Box::new(sym("a")), Box::new(sym("b")));
    assert_eq!(format_mul_operand(&sum), "((a + b))");
    assert_eq!(format_mul_operand(&sym("a")), "a");
    let p = Expr::Pow(Box::new(sym("x")), Box::new(num(2)));
    assert_eq!(p.to_display_string(), "(x)^2");
    let q = Expr::Div(Box::new(sum.deep_copy()), Box::new(sym("c")));
    assert_eq!(q.to_display_string(), "((a + b)) / c");
    let f = Expr::FunctionCall { name: "h".to_string(), args: vec![] };
    assert_eq!(f.to_display_string(), "h()");
}
