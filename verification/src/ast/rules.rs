//! The derivatives of the built-in functions of the binary-tree form.
//!
//! Each entry gives the whole derivative `d/dx f(u)` in terms of the argument
//! and the derivative `p` of the argument that the rule differentiates.

use vstd::prelude::*;
use crate::number::int_num;
use crate::text::string_is;
use super::{Expr, Node, call1, call2, mk_int, mk_sym, mk_add, mk_sub, mk_mul, mk_div, mk_pow};

verus! {

/// Whether `name` is a built-in function of one argument.
pub open spec fn unary_name(name: Seq<char>) -> bool {
    name == "sin"@
    || name == "cos"@
    || name == "ln"@
    || name == "exp"@
    || name == "sinh"@
    || name == "cosh"@
    || name == "tanh"@
    || name == "tan"@
    || name == "cot"@
    || name == "sec"@
    || name == "csc"@
    || name == "asin"@
    || name == "acos"@
    || name == "atan"@
    || name == "acot"@
    || name == "asec"@
    || name == "acsc"@
    || name == "sqrt"@
    || name == "cbrt"@
    || name == "coth"@
    || name == "sech"@
    || name == "csch"@
    || name == "asinh"@
    || name == "acosh"@
    || name == "atanh"@
    || name == "acoth"@
    || name == "asech"@
    || name == "acsch"@
    || name == "log10"@
    || name == "log2"@
    || name == "log"@
    || name == "sinc"@
    || name == "erf"@
    || name == "erfc"@
    || name == "gamma"@
    || name == "digamma"@
    || name == "trigamma"@
    || name == "tetragamma"@
    || name == "LambertW"@
}

/// Whether `name` is a built-in function of an order and an argument.
pub open spec fn order_name(name: Seq<char>) -> bool {
    name == "polygamma"@
    || name == "besselj"@
    || name == "bessely"@
    || name == "besseli"@
    || name == "besselk"@
}

/// `d/dx name(u)`, where `p` is the derivative of `u`.
pub open spec fn unary_rule(name: Seq<char>, u: Node, p: Node) -> Node {
    if name == "sin"@ {
        Node::Mul(Box::new(Node::Call("cos"@, seq![u])), Box::new(p))
    } else if name == "cos"@ {
        Node::Mul(Box::new(Node::Mul(Box::new(Node::Num(int_num(-1))), Box::new(Node::Call("sin"@, seq![u])))), Box::new(p))
    } else if name == "ln"@ {
        Node::Mul(Box::new(Node::Pow(Box::new(u), Box::new(Node::Num(int_num(-1))))), Box::new(p))
    } else if name == "exp"@ {
        Node::Mul(Box::new(Node::Call("exp"@, seq![u])), Box::new(p))
    } else if name == "sinh"@ {
        Node::Mul(Box::new(Node::Call("cosh"@, seq![u])), Box::new(p))
    } else if name == "cosh"@ {
        Node::Mul(Box::new(Node::Call("sinh"@, seq![u])), Box::new(p))
    } else if name == "tanh"@ {
        Node::Mul(Box::new(Node::Sub(Box::new(Node::Num(int_num(1))), Box::new(Node::Pow(Box::new(Node::Call("tanh"@, seq![u])), Box::new(Node::Num(int_num(2))))))), Box::new(p))
    } else if name == "tan"@ {
        Node::Mul(Box::new(Node::Pow(Box::new(Node::Call("sec"@, seq![u])), Box::new(Node::Num(int_num(2))))), Box::new(p))
    } else if name == "cot"@ {
        Node::Mul(Box::new(Node::Mul(Box::new(Node::Num(int_num(-1))), Box::new(Node::Pow(Box::new(Node::Call("csc"@, seq![u])), Box::new(Node::Num(int_num(2))))))), Box::new(p))
    } else if name == "sec"@ {
        Node::Mul(Box::new(Node::Mul(Box::new(Node::Call("sec"@, seq![u])), Box::new(Node::Call("tan"@, seq![u])))), Box::new(p))
    } else if name == "csc"@ {
        Node::Mul(Box::new(Node::Mul(Box::new(Node::Num(int_num(-1))), Box::new(Node::Mul(Box::new(Node::Call("csc"@, seq![u])), Box::new(Node::Call("cot"@, seq![u])))))), Box::new(p))
    } else if name == "asin"@ {
        Node::Div(Box::new(p), Box::new(Node::Call("sqrt"@, seq![Node::Sub(Box::new(Node::Num(int_num(1))), Box::new(Node::Pow(Box::new(u), Box::new(Node::Num(int_num(2))))))])))
    } else if name == "acos"@ {
        Node::Div(Box::new(Node::Mul(Box::new(Node::Num(int_num(-1))), Box::new(p))), Box::new(Node::Call("sqrt"@, seq![Node::Sub(Box::new(Node::Num(int_num(1))), Box::new(Node::Pow(Box::new(u), Box::new(Node::Num(int_num(2))))))])))
    } else if name == "atan"@ {
        Node::Div(Box::new(p), Box::new(Node::Add(Box::new(Node::Num(int_num(1))), Box::new(Node::Pow(Box::new(u), Box::new(Node::Num(int_num(2))))))))
    } else if name == "acot"@ {
        Node::Div(Box::new(Node::Mul(Box::new(Node::Num(int_num(-1))), Box::new(p))), Box::new(Node::Add(Box::new(Node::Num(int_num(1))), Box::new(Node::Pow(Box::new(u), Box::new(Node::Num(int_num(2))))))))
    } else if name == "asec"@ {
        Node::Div(Box::new(p), Box::new(Node::Mul(Box::new(u), Box::new(Node::Call("sqrt"@, seq![Node::Sub(Box::new(Node::Pow(Box::new(u), Box::new(Node::Num(int_num(2))))), Box::new(Node::Num(int_num(1))))])))))
    } else if name == "acsc"@ {
        Node::Div(Box::new(Node::Mul(Box::new(Node::Num(int_num(-1))), Box::new(p))), Box::new(Node::Mul(Box::new(u), Box::new(Node::Call("sqrt"@, seq![Node::Sub(Box::new(Node::Pow(Box::new(u), Box::new(Node::Num(int_num(2))))), Box::new(Node::Num(int_num(1))))])))))
    } else if name == "sqrt"@ {
        Node::Div(Box::new(p), Box::new(Node::Mul(Box::new(Node::Num(int_num(2))), Box::new(Node::Call("sqrt"@, seq![u])))))
    } else if name == "cbrt"@ {
        Node::Div(Box::new(p), Box::new(Node::Mul(Box::new(Node::Num(int_num(3))), Box::new(Node::Pow(Box::new(u), Box::new(Node::Div(Box::new(Node::Num(int_num(2))), Box::new(Node::Num(int_num(3))))))))))
    } else if name == "coth"@ {
        Node::Mul(Box::new(Node::Mul(Box::new(Node::Num(int_num(-1))), Box::new(Node::Pow(Box::new(Node::Call("csch"@, seq![u])), Box::new(Node::Num(int_num(2))))))), Box::new(p))
    } else if name == "sech"@ {
        Node::Mul(Box::new(Node::Mul(Box::new(Node::Num(int_num(-1))), Box::new(Node::Mul(Box::new(Node::Call("sech"@, seq![u])), Box::new(Node::Call("tanh"@, seq![u])))))), Box::new(p))
    } else if name == "csch"@ {
        Node::Mul(Box::new(Node::Mul(Box::new(Node::Num(int_num(-1))), Box::new(Node::Mul(Box::new(Node::Call("csch"@, seq![u])), Box::new(Node::Call("coth"@, seq![u])))))), Box::new(p))
    } else if name == "asinh"@ {
        Node::Div(Box::new(p), Box::new(Node::Call("sqrt"@, seq![Node::Add(Box::new(Node::Pow(Box::new(u), Box::new(Node::Num(int_num(2))))), Box::new(Node::Num(int_num(1))))])))
    } else if name == "acosh"@ {
        Node::Div(Box::new(p), Box::new(Node::Call("sqrt"@, seq![Node::Sub(Box::new(Node::Pow(Box::new(u), Box::new(Node::Num(int_num(2))))), Box::new(Node::Num(int_num(1))))])))
    } else if name == "atanh"@ {
        Node::Div(Box::new(p), Box::new(Node::Sub(Box::new(Node::Num(int_num(1))), Box::new(Node::Pow(Box::new(u), Box::new(Node::Num(int_num(2))))))))
    } else if name == "acoth"@ {
        Node::Div(Box::new(p), Box::new(Node::Sub(Box::new(Node::Num(int_num(1))), Box::new(Node::Pow(Box::new(u), Box::new(Node::Num(int_num(2))))))))
    } else if name == "asech"@ {
        Node::Div(Box::new(Node::Mul(Box::new(Node::Num(int_num(-1))), Box::new(p))), Box::new(Node::Mul(Box::new(u), Box::new(Node::Call("sqrt"@, seq![Node::Sub(Box::new(Node::Num(int_num(1))), Box::new(Node::Pow(Box::new(u), Box::new(Node::Num(int_num(2))))))])))))
    } else if name == "acsch"@ {
        Node::Div(Box::new(Node::Mul(Box::new(Node::Num(int_num(-1))), Box::new(p))), Box::new(Node::Mul(Box::new(u), Box::new(Node::Call("sqrt"@, seq![Node::Add(Box::new(Node::Num(int_num(1))), Box::new(Node::Pow(Box::new(u), Box::new(Node::Num(int_num(2))))))])))))
    } else if name == "log10"@ {
        Node::Div(Box::new(p), Box::new(Node::Mul(Box::new(u), Box::new(Node::Call("ln"@, seq![Node::Num(int_num(10))])))))
    } else if name == "log2"@ {
        Node::Div(Box::new(p), Box::new(Node::Mul(Box::new(u), Box::new(Node::Call("ln"@, seq![Node::Num(int_num(2))])))))
    } else if name == "log"@ {
        Node::Div(Box::new(p), Box::new(u))
    } else if name == "sinc"@ {
        Node::Mul(Box::new(Node::Div(Box::new(Node::Sub(Box::new(Node::Mul(Box::new(Node::Call("cos"@, seq![u])), Box::new(u))), Box::new(Node::Call("sin"@, seq![u])))), Box::new(Node::Pow(Box::new(u), Box::new(Node::Num(int_num(2))))))), Box::new(p))
    } else if name == "erf"@ {
        Node::Mul(Box::new(Node::Mul(Box::new(Node::Div(Box::new(Node::Num(int_num(2))), Box::new(Node::Call("sqrt"@, seq![Node::Sym("pi"@)])))), Box::new(Node::Call("exp"@, seq![Node::Mul(Box::new(Node::Num(int_num(-1))), Box::new(Node::Pow(Box::new(u), Box::new(Node::Num(int_num(2))))))])))), Box::new(p))
    } else if name == "erfc"@ {
        Node::Mul(Box::new(Node::Mul(Box::new(Node::Div(Box::new(Node::Num(int_num(-2))), Box::new(Node::Call("sqrt"@, seq![Node::Sym("pi"@)])))), Box::new(Node::Call("exp"@, seq![Node::Mul(Box::new(Node::Num(int_num(-1))), Box::new(Node::Pow(Box::new(u), Box::new(Node::Num(int_num(2))))))])))), Box::new(p))
    } else if name == "gamma"@ {
        Node::Mul(Box::new(Node::Mul(Box::new(Node::Call("gamma"@, seq![u])), Box::new(Node::Call("digamma"@, seq![u])))), Box::new(p))
    } else if name == "digamma"@ {
        Node::Mul(Box::new(Node::Call("trigamma"@, seq![u])), Box::new(p))
    } else if name == "trigamma"@ {
        Node::Mul(Box::new(Node::Call("tetragamma"@, seq![u])), Box::new(p))
    } else if name == "tetragamma"@ {
        Node::Mul(Box::new(Node::Call("polygamma"@, seq![Node::Num(int_num(3)), u])), Box::new(p))
    } else if name == "LambertW"@ {
        Node::Mul(Box::new(Node::Div(Box::new(Node::Call("LambertW"@, seq![u])), Box::new(Node::Mul(Box::new(u), Box::new(Node::Add(Box::new(Node::Num(int_num(1))), Box::new(Node::Call("LambertW"@, seq![u])))))))), Box::new(p))
    } else {
        p
    }
}

/// `d/dx name(n, x)`, where `p` is the derivative of `x`.
pub open spec fn order_rule(name: Seq<char>, n: Node, x: Node, p: Node) -> Node {
    if name == "polygamma"@ {
        Node::Mul(Box::new(Node::Call("polygamma"@, seq![Node::Add(Box::new(n), Box::new(Node::Num(int_num(1)))), x])), Box::new(p))
    } else if name == "besselj"@ {
        Node::Mul(Box::new(Node::Mul(Box::new(Node::Div(Box::new(Node::Num(int_num(1))), Box::new(Node::Num(int_num(2))))), Box::new(Node::Sub(Box::new(Node::Call("besselj"@, seq![Node::Sub(Box::new(n), Box::new(Node::Num(int_num(1)))), x])), Box::new(Node::Call("besselj"@, seq![Node::Add(Box::new(n), Box::new(Node::Num(int_num(1)))), x])))))), Box::new(p))
    } else if name == "bessely"@ {
        Node::Mul(Box::new(Node::Mul(Box::new(Node::Div(Box::new(Node::Num(int_num(1))), Box::new(Node::Num(int_num(2))))), Box::new(Node::Sub(Box::new(Node::Call("bessely"@, seq![Node::Sub(Box::new(n), Box::new(Node::Num(int_num(1)))), x])), Box::new(Node::Call("bessely"@, seq![Node::Add(Box::new(n), Box::new(Node::Num(int_num(1)))), x])))))), Box::new(p))
    } else if name == "besseli"@ {
        Node::Mul(Box::new(Node::Mul(Box::new(Node::Div(Box::new(Node::Num(int_num(1))), Box::new(Node::Num(int_num(2))))), Box::new(Node::Add(Box::new(Node::Call("besseli"@, seq![Node::Sub(Box::new(n), Box::new(Node::Num(int_num(1)))), x])), Box::new(Node::Call("besseli"@, seq![Node::Add(Box::new(n), Box::new(Node::Num(int_num(1)))), x])))))), Box::new(p))
    } else if name == "besselk"@ {
        Node::Mul(Box::new(Node::Mul(Box::new(Node::Div(Box::new(Node::Num(int_num(-1))), Box::new(Node::Num(int_num(2))))), Box::new(Node::Add(Box::new(Node::Call("besselk"@, seq![Node::Sub(Box::new(n), Box::new(Node::Num(int_num(1)))), x])), Box::new(Node::Call("besselk"@, seq![Node::Add(Box::new(n), Box::new(Node::Num(int_num(1)))), x])))))), Box::new(p))
    } else {
        p
    }
}

/// Whether `name` is a built-in function of one argument.
pub fn is_unary_name(name: &String) -> (r: bool)
    ensures
        r == unary_name(name@),
{
    string_is(name, "sin")
        || string_is(name, "cos")
        || string_is(name, "ln")
        || string_is(name, "exp")
        || string_is(name, "sinh")
        || string_is(name, "cosh")
        || string_is(name, "tanh")
        || string_is(name, "tan")
        || string_is(name, "cot")
        || string_is(name, "sec")
        || string_is(name, "csc")
        || string_is(name, "asin")
        || string_is(name, "acos")
        || string_is(name, "atan")
        || string_is(name, "acot")
        || string_is(name, "asec")
        || string_is(name, "acsc")
        || string_is(name, "sqrt")
        || string_is(name, "cbrt")
        || string_is(name, "coth")
        || string_is(name, "sech")
        || string_is(name, "csch")
        || string_is(name, "asinh")
        || string_is(name, "acosh")
        || string_is(name, "atanh")
        || string_is(name, "acoth")
        || string_is(name, "asech")
        || string_is(name, "acsch")
        || string_is(name, "log10")
        || string_is(name, "log2")
        || string_is(name, "log")
        || string_is(name, "sinc")
        || string_is(name, "erf")
        || string_is(name, "erfc")
        || string_is(name, "gamma")
        || string_is(name, "digamma")
        || string_is(name, "trigamma")
        || string_is(name, "tetragamma")
        || string_is(name, "LambertW")
}

/// Whether `name` is a built-in function of an order and an argument.
pub fn is_order_name(name: &String) -> (r: bool)
    ensures
        r == order_name(name@),
{
    string_is(name, "polygamma")
        || string_is(name, "besselj")
        || string_is(name, "bessely")
        || string_is(name, "besseli")
        || string_is(name, "besselk")
}

/// `d/dx name(u)`, where `p` is the derivative of `u`.
#[verifier::rlimit(50)]
pub fn unary_rule_exec(name: &String, u: &Expr, p: Expr) -> (r: Expr)
    ensures
        r@ == unary_rule(name@, u@, p@),
{
    if string_is(name, "sin") {
        mk_mul(call1("cos", u.deep_copy()), p)
    } else if string_is(name, "cos") {
        mk_mul(mk_mul(mk_int(-1), call1("sin", u.deep_copy())), p)
    } else if string_is(name, "ln") {
        mk_mul(mk_pow(u.deep_copy(), mk_int(-1)), p)
    } else if string_is(name, "exp") {
        mk_mul(call1("exp", u.deep_copy()), p)
    } else if string_is(name, "sinh") {
        mk_mul(call1("cosh", u.deep_copy()), p)
    } else if string_is(name, "cosh") {
        mk_mul(call1("sinh", u.deep_copy()), p)
    } else if string_is(name, "tanh") {
        mk_mul(mk_sub(mk_int(1), mk_pow(call1("tanh", u.deep_copy()), mk_int(2))), p)
    } else if string_is(name, "tan") {
        mk_mul(mk_pow(call1("sec", u.deep_copy()), mk_int(2)), p)
    } else if string_is(name, "cot") {
        mk_mul(mk_mul(mk_int(-1), mk_pow(call1("csc", u.deep_copy()), mk_int(2))), p)
    } else if string_is(name, "sec") {
        mk_mul(mk_mul(call1("sec", u.deep_copy()), call1("tan", u.deep_copy())), p)
    } else if string_is(name, "csc") {
        mk_mul(mk_mul(mk_int(-1), mk_mul(call1("csc", u.deep_copy()), call1("cot", u.deep_copy()))), p)
    } else if string_is(name, "asin") {
        mk_div(p, call1("sqrt", mk_sub(mk_int(1), mk_pow(u.deep_copy(), mk_int(2)))))
    } else if string_is(name, "acos") {
        mk_div(mk_mul(mk_int(-1), p), call1("sqrt", mk_sub(mk_int(1), mk_pow(u.deep_copy(), mk_int(2)))))
    } else if string_is(name, "atan") {
        mk_div(p, mk_add(mk_int(1), mk_pow(u.deep_copy(), mk_int(2))))
    } else if string_is(name, "acot") {
        mk_div(mk_mul(mk_int(-1), p), mk_add(mk_int(1), mk_pow(u.deep_copy(), mk_int(2))))
    } else if string_is(name, "asec") {
        mk_div(p, mk_mul(u.deep_copy(), call1("sqrt", mk_sub(mk_pow(u.deep_copy(), mk_int(2)), mk_int(1)))))
    } else if string_is(name, "acsc") {
        mk_div(mk_mul(mk_int(-1), p), mk_mul(u.deep_copy(), call1("sqrt", mk_sub(mk_pow(u.deep_copy(), mk_int(2)), mk_int(1)))))
    } else if string_is(name, "sqrt") {
        mk_div(p, mk_mul(mk_int(2), call1("sqrt", u.deep_copy())))
    } else if string_is(name, "cbrt") {
        mk_div(p, mk_mul(mk_int(3), mk_pow(u.deep_copy(), mk_div(mk_int(2), mk_int(3)))))
    } else if string_is(name, "coth") {
        mk_mul(mk_mul(mk_int(-1), mk_pow(call1("csch", u.deep_copy()), mk_int(2))), p)
    } else if string_is(name, "sech") {
        mk_mul(mk_mul(mk_int(-1), mk_mul(call1("sech", u.deep_copy()), call1("tanh", u.deep_copy()))), p)
    } else if string_is(name, "csch") {
        mk_mul(mk_mul(mk_int(-1), mk_mul(call1("csch", u.deep_copy()), call1("coth", u.deep_copy()))), p)
    } else if string_is(name, "asinh") {
        mk_div(p, call1("sqrt", mk_add(mk_pow(u.deep_copy(), mk_int(2)), mk_int(1))))
    } else if string_is(name, "acosh") {
        mk_div(p, call1("sqrt", mk_sub(mk_pow(u.deep_copy(), mk_int(2)), mk_int(1))))
    } else if string_is(name, "atanh") {
        mk_div(p, mk_sub(mk_int(1), mk_pow(u.deep_copy(), mk_int(2))))
    } else if string_is(name, "acoth") {
        mk_div(p, mk_sub(mk_int(1), mk_pow(u.deep_copy(), mk_int(2))))
    } else if string_is(name, "asech") {
        mk_div(mk_mul(mk_int(-1), p), mk_mul(u.deep_copy(), call1("sqrt", mk_sub(mk_int(1), mk_pow(u.deep_copy(), mk_int(2))))))
    } else if string_is(name, "acsch") {
        mk_div(mk_mul(mk_int(-1), p), mk_mul(u.deep_copy(), call1("sqrt", mk_add(mk_int(1), mk_pow(u.deep_copy(), mk_int(2))))))
    } else if string_is(name, "log10") {
        mk_div(p, mk_mul(u.deep_copy(), call1("ln", mk_int(10))))
    } else if string_is(name, "log2") {
        mk_div(p, mk_mul(u.deep_copy(), call1("ln", mk_int(2))))
    } else if string_is(name, "log") {
        mk_div(p, u.deep_copy())
    } else if string_is(name, "sinc") {
        mk_mul(mk_div(mk_sub(mk_mul(call1("cos", u.deep_copy()), u.deep_copy()), call1("sin", u.deep_copy())), mk_pow(u.deep_copy(), mk_int(2))), p)
    } else if string_is(name, "erf") {
        mk_mul(mk_mul(mk_div(mk_int(2), call1("sqrt", mk_sym("pi"))), call1("exp", mk_mul(mk_int(-1), mk_pow(u.deep_copy(), mk_int(2))))), p)
    } else if string_is(name, "erfc") {
        mk_mul(mk_mul(mk_div(mk_int(-2), call1("sqrt", mk_sym("pi"))), call1("exp", mk_mul(mk_int(-1), mk_pow(u.deep_copy(), mk_int(2))))), p)
    } else if string_is(name, "gamma") {
        mk_mul(mk_mul(call1("gamma", u.deep_copy()), call1("digamma", u.deep_copy())), p)
    } else if string_is(name, "digamma") {
        mk_mul(call1("trigamma", u.deep_copy()), p)
    } else if string_is(name, "trigamma") {
        mk_mul(call1("tetragamma", u.deep_copy()), p)
    } else if string_is(name, "tetragamma") {
        mk_mul(call2("polygamma", mk_int(3), u.deep_copy()), p)
    } else if string_is(name, "LambertW") {
        mk_mul(mk_div(call1("LambertW", u.deep_copy()), mk_mul(u.deep_copy(), mk_add(mk_int(1), call1("LambertW", u.deep_copy())))), p)
    } else {
        p
    }
}

/// `d/dx name(n, x)`, where `p` is the derivative of `x`.
#[verifier::rlimit(50)]
pub fn order_rule_exec(name: &String, n: &Expr, x: &Expr, p: Expr) -> (r: Expr)
    ensures
        r@ == order_rule(name@, n@, x@, p@),
{
    if string_is(name, "polygamma") {
        mk_mul(call2("polygamma", mk_add(n.deep_copy(), mk_int(1)), x.deep_copy()), p)
    } else if string_is(name, "besselj") {
        mk_mul(mk_mul(mk_div(mk_int(1), mk_int(2)), mk_sub(call2("besselj", mk_sub(n.deep_copy(), mk_int(1)), x.deep_copy()), call2("besselj", mk_add(n.deep_copy(), mk_int(1)), x.deep_copy()))), p)
    } else if string_is(name, "bessely") {
        mk_mul(mk_mul(mk_div(mk_int(1), mk_int(2)), mk_sub(call2("bessely", mk_sub(n.deep_copy(), mk_int(1)), x.deep_copy()), call2("bessely", mk_add(n.deep_copy(), mk_int(1)), x.deep_copy()))), p)
    } else if string_is(name, "besseli") {
        mk_mul(mk_mul(mk_div(mk_int(1), mk_int(2)), mk_add(call2("besseli", mk_sub(n.deep_copy(), mk_int(1)), x.deep_copy()), call2("besseli", mk_add(n.deep_copy(), mk_int(1)), x.deep_copy()))), p)
    } else if string_is(name, "besselk") {
        mk_mul(mk_mul(mk_div(mk_int(-1), mk_int(2)), mk_add(call2("besselk", mk_sub(n.deep_copy(), mk_int(1)), x.deep_copy()), call2("besselk", mk_add(n.deep_copy(), mk_int(1)), x.deep_copy()))), p)
    } else {
        p
    }
}

} // verus!
