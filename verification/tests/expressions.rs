use std::sync::Arc;
use symb_anafis::expr::functions::ArcExprExt;
use symb_anafis::expr::{Expr, ExprKind};
use symb_anafis::number::Num;

fn num(i: i64) -> Expr {
    Expr::number(Num::integer(i))
}

#[test]
fn printing_new_expressions() {
    let x = Expr::symbol("x");
    assert_eq!(x.deep_copy().func_sin_text(), "sin(x)");
    let s = Expr::sum(vec![Expr::symbol("a"), Expr::symbol("b")]);
    let p = Expr::product(vec![num(2), s]);
    assert_eq!(p.to_display_string(), "2*(a + b)");
    let neg = Expr::product(vec![num(-1), Expr::symbol("y")]);
    assert_eq!(neg.to_display_string(), "-y");
    let pw = Expr::pow_static(Expr::func("sin", Expr::symbol("x")), num(2));
    assert_eq!(pw.to_display_string(), "sin(x)^2");
    let q = Expr::div_expr(Expr::symbol("a"), Expr::product(vec![Expr::symbol("b"), Expr::symbol("c")]));
    assert_eq!(q.to_display_string(), "a/(b*c)");
    let d = Expr::derivative(Expr::func("f", Expr::symbol("x")), "x", 3);
    assert_eq!(d.to_display_string(), "∂^3_f(x)/∂_x^3");
    assert_eq!(Expr::number(Num::new(-25, 1)).to_display_string(), "-2.5");
    assert_eq!(Expr::sum(vec![]).to_display_string(), "0");
}

trait SinText {
    fn func_sin_text(self) -> String;
}

impl SinText for Expr {
    fn func_sin_text(self) -> String {
        Expr::func("sin", self).to_display_string()
    }
}

#[test]
fn builders_put_arguments_in_order() {
    let x = Expr::symbol("x");
    let e = x.log(num(10));
    assert_eq!(e.to_display_string(), "log(10, x)");
    let b = Expr::symbol("t").besselj(num(2));
    assert_eq!(b.to_display_string(), "besselj(2, t)");
    let y = Expr::symbol("th").spherical_harmonic(num(1), num(0), Expr::symbol("ph"));
    assert_eq!(y.to_display_string(), "spherical_harmonic(1, 0, th, ph)");
    let a = Expr::symbol("y").atan2(Expr::symbol("x"));
    assert_eq!(a.to_display_string(), "atan2(y, x)");
    let shared = Arc::new(Expr::symbol("z"));
    assert_eq!(shared.exp().to_display_string(), "exp(z)");
    assert_eq!(shared.pow(num(3)).to_display_string(), "z^3");
}

#[test]
fn chain_rule_and_quotient_rule_values() {
    // d/dx sin(x^2) = cos(x^2) * (2*x^1)
    let e = Expr::func("sin", Expr::pow_static(Expr::symbol("x"), num(2)));
    let d = e.derive("x");
    assert_eq!(d.to_display_string(), "cos(x^2)*2*x^(2 + -1)");
    // d/dx 3/x = (-3*1)/x^2
    let q = Expr::div_expr(num(3), Expr::symbol("x"));
    assert_eq!(q.derive("x").to_display_string(), "-3*1/x^2");
    // d/dx exp(x) keeps the inner derivative as a factor
    let ex = Expr::func("exp", Expr::symbol("x"));
    assert_eq!(ex.derive("x").to_display_string(), "exp(x)*1");
    // a constant base: d/dx 2^x = 2^x * ln(2)
    let p = Expr::pow_static(num(2), Expr::symbol("x"));
    assert_eq!(p.derive("x").to_display_string(), "2^x*ln(2)");
}

#[test]
fn sums_drop_zero_derivatives() {
    let s = Expr::sum(vec![Expr::symbol("x"), Expr::symbol("y"), num(4)]);
    let d = s.derive("x");
    assert_eq!(d.as_number(), Some(Num::integer(1)));
    let s2 = Expr::sum(vec![Expr::symbol("x"), Expr::symbol("x")]);
    match s2.derive("x").kind {
        ExprKind::Sum(ts) => assert_eq!(ts.len(), 2),
        _ => panic!("expected a sum"),
    }
}

#[test]
fn unknown_functions_get_symbolic_partials() {
    let f = Expr::func_multi("g", vec![Expr::symbol("x"), Expr::symbol("y")]);
    let d = f.derive("y");
    assert_eq!(d.to_display_string(), "∂^1_g(x, y)/∂_arg1^1*1");
    assert!(Expr::func("g", Expr::symbol("x")).contains_var("x"));
    assert!(!Expr::func("g", Expr::symbol("x")).contains_var("y"));
}
