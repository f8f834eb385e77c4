use symb_anafis::expr::{Expr, ExprKind};
use symb_anafis::number::Num;

fn num(i: i64) -> Expr {
    Expr::number(Num::integer(i))
}

#[test]
fn tests_test_derive_sinh() {
    let expr = Expr::func("sinh", Expr::symbol("x"));
    let result = expr.derive("x");
    match &result.kind {
        ExprKind::FunctionCall { name, .. } => assert_eq!(name, "cosh"),
        ExprKind::Product(factors) => {
            let has_cosh = factors
                .iter()
                .any(|f| matches!(&f.kind, ExprKind::FunctionCall { name, .. } if name == "cosh"));
            assert!(has_cosh, "Expected cosh in Product, got {factors:?}");
        }
        _ => panic!("Expected cosh or Product with cosh, got {result:?}"),
    }
}

#[test]
fn test_custom_derivative_fallback() {
    let x = Expr::symbol("x");
    let expr = Expr::func("custom", x);
    let result = expr.derive("x");
    assert!(
        !matches!(result.kind, ExprKind::Number(_)),
        "Expected non-constant derivative, got: {:?}",
        result.kind
    );
}

#[test]
fn tests_test_derive_subtraction() {
    let expr = Expr::sub_expr(Expr::symbol("x"), num(1));
    let result = expr.derive("x");
    assert!(matches!(result.kind, ExprKind::Number(n) if n == Num::integer(1)));
}

#[test]
fn tests_test_derive_division() {
    let expr = Expr::div_expr(Expr::symbol("x"), num(2));
    let result = expr.derive("x");
    assert!(matches!(result.kind, ExprKind::Div(_, _)));
}

#[test]
fn tests_test_logarithmic_differentiation() {
    let expr = Expr::pow_static(Expr::symbol("x"), Expr::symbol("x"));
    let result = expr.derive("x");
    assert!(matches!(result.kind, ExprKind::Product(_)));
}

#[test]
fn tests_test_derivative_order_increment() {
    let inner_func = Expr::func("f", Expr::symbol("x"));
    let derivative_expr = Expr::derivative(inner_func, "x", 1);
    let result = derivative_expr.derive("x");
    match &result.kind {
        ExprKind::Derivative { order, var, .. } => {
            assert_eq!(*order, 2);
            assert_eq!(var.as_str(), "x");
        }
        _ => panic!("Expected Derivative, got {result:?}"),
    }
}

#[test]
fn tests_test_derivative_order_increment_multi_digit() {
    let inner_func = Expr::func("f", Expr::symbol("x"));
    let ninth_deriv = Expr::derivative(inner_func.deep_copy(), "x", 9);
    let result = ninth_deriv.derive("x");
    match result.kind {
        ExprKind::Derivative { order, .. } => assert_eq!(order, 10),
        _ => panic!("Expected Derivative, got {result:?}"),
    }

    let ninety_ninth_deriv = Expr::derivative(inner_func, "x", 99);
    let result2 = ninety_ninth_deriv.derive("x");
    match result2.kind {
        ExprKind::Derivative { order, .. } => assert_eq!(order, 100),
        _ => panic!("Expected Derivative, got {result2:?}"),
    }
}

#[test]
fn test_derivative_variable_not_present_returns_zero() {
    let inner_func = Expr::func("f", Expr::symbol("x"));
    let derivative_expr = Expr::derivative(inner_func, "x", 1);
    let result = derivative_expr.derive("y");
    assert_eq!(result.as_number(), Some(Num::integer(0)));
}

#[test]
fn test_derivative_mixed_partial_when_variable_present() {
    let inner_func = Expr::func_multi("f", vec![Expr::symbol("x"), Expr::symbol("y")]);
    let derivative_expr = Expr::derivative(inner_func, "x", 1);
    let result = derivative_expr.derive("y");

    match &result.kind {
        ExprKind::Derivative { var, order, inner } => {
            assert_eq!(var.as_str(), "y");
            assert_eq!(*order, 1);
            match &inner.kind {
                ExprKind::Derivative {
                    var: inner_var,
                    order: inner_order,
                    ..
                } => {
                    assert_eq!(inner_var.as_str(), "x");
                    assert_eq!(*inner_order, 1);
                }
                _ => panic!("Expected inner Derivative, got {inner:?}"),
            }
        }
        _ => panic!("Expected Derivative for mixed partial, got {result:?}"),
    }
}

#[test]
fn test_derivative_multivar_function() {
    let inner_func = Expr::func_multi("f", vec![Expr::symbol("x"), Expr::symbol("y")]);
    let partial_deriv = Expr::derivative(inner_func, "x", 1);
    let result = partial_deriv.derive("x");
    match &result.kind {
        ExprKind::Derivative { order, var, .. } => {
            assert_eq!(*order, 2);
            assert_eq!(var.as_str(), "x");
        }
        _ => panic!("Expected Derivative, got {result:?}"),
    }
}

#[test]
fn test_mixed_partial_display() {
    let f = Expr::func_multi("f", vec![Expr::symbol("x"), Expr::symbol("y")]);
    let df_dx = Expr::derivative(f, "x", 1);
    let d2f_dxdy = df_dx.derive("y");
    let display = d2f_dxdy.to_display_string();
    assert!(
        display.contains("\u{2202}^"),
        "Display should contain derivative notation, got: {display}"
    );
}

#[test]
fn test_deeply_nested_derivatives() {
    let f_xyz = Expr::func_multi(
        "f",
        vec![Expr::symbol("x"), Expr::symbol("y"), Expr::symbol("z")],
    );
    let deriv_x = Expr::derivative(f_xyz.deep_copy(), "x", 1);
    let deriv_xy = deriv_x.derive("y");
    let deriv_xyz = deriv_xy.derive("z");

    match &deriv_xyz.kind {
        ExprKind::Derivative { var, .. } => {
            assert_eq!(var.as_str(), "z");
        }
        _ => panic!("Expected Derivative for triple mixed partial, got {deriv_xyz:?}"),
    }

    let deriv_w = f_xyz.derive("w");
    assert_eq!(deriv_w.as_number(), Some(Num::integer(0)));

    let deriv_w_x = deriv_x.derive("w");
    assert_eq!(deriv_w_x.as_number(), Some(Num::integer(0)));
}

#[test]
fn test_derive_erfc() {
    let expr = Expr::func("erfc", Expr::symbol("x"));
    let result = expr.derive("x");
    let s = result.to_display_string();
    assert!(s.contains("exp"), "Result should contain exp: {s}");
    assert!(s.contains("pi"), "Result should contain pi: {s}");
    assert!(s.contains("-2"), "Result should contain -2: {s}");
}

#[test]
fn test_empty_product_derivative() {
    let empty_prod = Expr::new(ExprKind::Product(vec![]));
    let result = empty_prod.derive("x");
    assert_eq!(result.as_number(), Some(Num::integer(0)));
}

#[test]
fn test_empty_sum_derivative() {
    let empty_sum = Expr::new(ExprKind::Sum(vec![]));
    let result = empty_sum.derive("x");
    assert_eq!(result.as_number(), Some(Num::integer(0)));
}

#[test]
fn test_power_rule_edge_cases() {
    let zero_pow_two = Expr::pow_static(num(0), num(2));
    let result = zero_pow_two.derive("x");
    assert_eq!(result.as_number(), Some(Num::integer(0)));

    let x_pow_zero = Expr::pow_static(Expr::symbol("x"), num(0));
    let result3 = x_pow_zero.derive("x");
    let simplified = result3.to_display_string();
    assert!(
        simplified.contains('0') || result3.as_number() == Some(Num::integer(0)),
        "x^0 derivative should simplify to 0, got: {simplified}"
    );
}
