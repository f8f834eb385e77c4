//! The derivative rules of the binary-tree form checked against calculus.
//!
//! Each law writes the chain rule for a built-in function the way a calculus
//! text does, `d/dx f(u) = f'(u) * u'` or `u' / g(u)`, and states that the
//! rule gives exactly that.

use vstd::prelude::*;
use crate::number::int_num;
use super::Node;
use super::rules::{unary_rule, order_rule};
use super::derive::lderiv;
use super::notation::notation_bump;
use crate::number::lemma_num_forms;

verus! {

/// The integer `i`.
pub open spec fn num(i: int) -> Node {
    Node::Num(int_num(i))
}

/// `-t`: the product of -1 and `t`.
pub open spec fn neg(t: Node) -> Node {
    Node::Mul(Box::new(num(-1)), Box::new(t))
}

/// `a * b`.
pub open spec fn times(a: Node, b: Node) -> Node {
    Node::Mul(Box::new(a), Box::new(b))
}

/// `a / b`.
pub open spec fn over(a: Node, b: Node) -> Node {
    Node::Div(Box::new(a), Box::new(b))
}

/// `a + b`.
pub open spec fn plus(a: Node, b: Node) -> Node {
    Node::Add(Box::new(a), Box::new(b))
}

/// `a - b`.
pub open spec fn minus(a: Node, b: Node) -> Node {
    Node::Sub(Box::new(a), Box::new(b))
}

/// `t^2`.
pub open spec fn sq(t: Node) -> Node {
    Node::Pow(Box::new(t), Box::new(num(2)))
}

/// `f(u)`.
pub open spec fn call(f: Seq<char>, u: Node) -> Node {
    Node::Call(f, seq![u])
}

/// Law: the chain rule for each built-in function of one argument, with the
/// calculus derivative: `d sin u = cos u * u'`, `d cos u = -sin u * u'`,
/// `d ln u = u^-1 * u'`, `d exp u = exp u * u'`, `d tan u = sec^2 u * u'`,
/// `d asin u = u' / sqrt(1 - u^2)`, `d atan u = u' / (1 + u^2)`,
/// `d sqrt u = u' / (2 sqrt u)`, `d log_b u = u' / (u ln b)`, and so on.
pub proof fn law_chain_rules_follow_calculus(u: Node, p: Node)
    ensures
        unary_rule("sin"@, u, p) == times(call("cos"@, u), p),
        unary_rule("cos"@, u, p) == times(neg(call("sin"@, u)), p),
        unary_rule("ln"@, u, p) == times(Node::Pow(Box::new(u), Box::new(num(-1))), p),
        unary_rule("exp"@, u, p) == times(call("exp"@, u), p),
        unary_rule("sinh"@, u, p) == times(call("cosh"@, u), p),
        unary_rule("cosh"@, u, p) == times(call("sinh"@, u), p),
        unary_rule("tanh"@, u, p) == times(minus(num(1), sq(call("tanh"@, u))), p),
        unary_rule("tan"@, u, p) == times(sq(call("sec"@, u)), p),
        unary_rule("cot"@, u, p) == times(neg(sq(call("csc"@, u))), p),
        unary_rule("sec"@, u, p) == times(times(call("sec"@, u), call("tan"@, u)), p),
        unary_rule("csc"@, u, p) == times(neg(times(call("csc"@, u), call("cot"@, u))), p),
        unary_rule("asin"@, u, p) == over(p, call("sqrt"@, minus(num(1), sq(u)))),
        unary_rule("acos"@, u, p) == over(neg(p), call("sqrt"@, minus(num(1), sq(u)))),
        unary_rule("atan"@, u, p) == over(p, plus(num(1), sq(u))),
        unary_rule("acot"@, u, p) == over(neg(p), plus(num(1), sq(u))),
        unary_rule("asec"@, u, p) == over(p, times(u, call("sqrt"@, minus(sq(u), num(1))))),
        unary_rule("acsc"@, u, p) == over(neg(p), times(u, call("sqrt"@, minus(sq(u), num(1))))),
        unary_rule("sqrt"@, u, p) == over(p, times(num(2), call("sqrt"@, u))),
        unary_rule("cbrt"@, u, p) == over(p, times(num(3), Node::Pow(Box::new(u), Box::new(over(num(2), num(3)))))),
        unary_rule("coth"@, u, p) == times(neg(sq(call("csch"@, u))), p),
        unary_rule("sech"@, u, p) == times(neg(times(call("sech"@, u), call("tanh"@, u))), p),
        unary_rule("csch"@, u, p) == times(neg(times(call("csch"@, u), call("coth"@, u))), p),
        unary_rule("asinh"@, u, p) == over(p, call("sqrt"@, plus(sq(u), num(1)))),
        unary_rule("acosh"@, u, p) == over(p, call("sqrt"@, minus(sq(u), num(1)))),
        unary_rule("atanh"@, u, p) == over(p, minus(num(1), sq(u))),
        unary_rule("acoth"@, u, p) == over(p, minus(num(1), sq(u))),
        unary_rule("asech"@, u, p) == over(neg(p), times(u, call("sqrt"@, minus(num(1), sq(u))))),
        unary_rule("acsch"@, u, p) == over(neg(p), times(u, call("sqrt"@, plus(num(1), sq(u))))),
        unary_rule("log10"@, u, p) == over(p, times(u, call("ln"@, num(10)))),
        unary_rule("log2"@, u, p) == over(p, times(u, call("ln"@, num(2)))),
        unary_rule("log"@, u, p) == over(p, u),
        unary_rule("sinc"@, u, p) == times(over(minus(times(call("cos"@, u), u), call("sin"@, u)), sq(u)), p),
        unary_rule("erf"@, u, p) == times(times(over(num(2), call("sqrt"@, Node::Sym("pi"@))), call("exp"@, neg(sq(u)))), p),
        unary_rule("erfc"@, u, p) == times(times(over(num(-2), call("sqrt"@, Node::Sym("pi"@))), call("exp"@, neg(sq(u)))), p),
        unary_rule("gamma"@, u, p) == times(times(call("gamma"@, u), call("digamma"@, u)), p),
        unary_rule("digamma"@, u, p) == times(call("trigamma"@, u), p),
        unary_rule("trigamma"@, u, p) == times(call("tetragamma"@, u), p),
        unary_rule("tetragamma"@, u, p) == times(Node::Call("polygamma"@, seq![num(3), u]), p),
        unary_rule("LambertW"@, u, p) == times(over(call("LambertW"@, u), times(u, plus(num(1), call("LambertW"@, u)))), p),
{
    reveal_strlit("sin");
    assert("sin"@.len() == 3);
    assert("sin"@[0] == 's');
    assert("sin"@[1] == 'i');
    assert("sin"@[2] == 'n');
    reveal_strlit("cos");
    assert("cos"@.len() == 3);
    assert("cos"@[0] == 'c');
    assert("cos"@[1] == 'o');
    assert("cos"@[2] == 's');
    reveal_strlit("ln");
    assert("ln"@.len() == 2);
    assert("ln"@[0] == 'l');
    assert("ln"@[1] == 'n');
    reveal_strlit("exp");
    assert("exp"@.len() == 3);
    assert("exp"@[0] == 'e');
    assert("exp"@[1] == 'x');
    assert("exp"@[2] == 'p');
    reveal_strlit("sinh");
    assert("sinh"@.len() == 4);
    assert("sinh"@[0] == 's');
    assert("sinh"@[1] == 'i');
    assert("sinh"@[2] == 'n');
    assert("sinh"@[3] == 'h');
    reveal_strlit("cosh");
    assert("cosh"@.len() == 4);
    assert("cosh"@[0] == 'c');
    assert("cosh"@[1] == 'o');
    assert("cosh"@[2] == 's');
    assert("cosh"@[3] == 'h');
    reveal_strlit("tanh");
    assert("tanh"@.len() == 4);
    assert("tanh"@[0] == 't');
    assert("tanh"@[1] == 'a');
    assert("tanh"@[2] == 'n');
    assert("tanh"@[3] == 'h');
    reveal_strlit("tan");
    assert("tan"@.len() == 3);
    assert("tan"@[0] == 't');
    assert("tan"@[1] == 'a');
    assert("tan"@[2] == 'n');
    reveal_strlit("cot");
    assert("cot"@.len() == 3);
    assert("cot"@[0] == 'c');
    assert("cot"@[1] == 'o');
    assert("cot"@[2] == 't');
    reveal_strlit("sec");
    assert("sec"@.len() == 3);
    assert("sec"@[0] == 's');
    assert("sec"@[1] == 'e');
    assert("sec"@[2] == 'c');
    reveal_strlit("csc");
    assert("csc"@.len() == 3);
    assert("csc"@[0] == 'c');
    assert("csc"@[1] == 's');
    assert("csc"@[2] == 'c');
    reveal_strlit("asin");
    assert("asin"@.len() == 4);
    assert("asin"@[0] == 'a');
    assert("asin"@[1] == 's');
    assert("asin"@[2] == 'i');
    assert("asin"@[3] == 'n');
    reveal_strlit("acos");
    assert("acos"@.len() == 4);
    assert("acos"@[0] == 'a');
    assert("acos"@[1] == 'c');
    assert("acos"@[2] == 'o');
    assert("acos"@[3] == 's');
    reveal_strlit("atan");
    assert("atan"@.len() == 4);
    assert("atan"@[0] == 'a');
    assert("atan"@[1] == 't');
    assert("atan"@[2] == 'a');
    assert("atan"@[3] == 'n');
    reveal_strlit("acot");
    assert("acot"@.len() == 4);
    assert("acot"@[0] == 'a');
    assert("acot"@[1] == 'c');
    assert("acot"@[2] == 'o');
    assert("acot"@[3] == 't');
    reveal_strlit("asec");
    assert("asec"@.len() == 4);
    assert("asec"@[0] == 'a');
    assert("asec"@[1] == 's');
    assert("asec"@[2] == 'e');
    assert("asec"@[3] == 'c');
    reveal_strlit("acsc");
    assert("acsc"@.len() == 4);
    assert("acsc"@[0] == 'a');
    assert("acsc"@[1] == 'c');
    assert("acsc"@[2] == 's');
    assert("acsc"@[3] == 'c');
    reveal_strlit("sqrt");
    assert("sqrt"@.len() == 4);
    assert("sqrt"@[0] == 's');
    assert("sqrt"@[1] == 'q');
    assert("sqrt"@[2] == 'r');
    assert("sqrt"@[3] == 't');
    reveal_strlit("cbrt");
    assert("cbrt"@.len() == 4);
    assert("cbrt"@[0] == 'c');
    assert("cbrt"@[1] == 'b');
    assert("cbrt"@[2] == 'r');
    assert("cbrt"@[3] == 't');
    reveal_strlit("coth");
    assert("coth"@.len() == 4);
    assert("coth"@[0] == 'c');
    assert("coth"@[1] == 'o');
    assert("coth"@[2] == 't');
    assert("coth"@[3] == 'h');
    reveal_strlit("sech");
    assert("sech"@.len() == 4);
    assert("sech"@[0] == 's');
    assert("sech"@[1] == 'e');
    assert("sech"@[2] == 'c');
    assert("sech"@[3] == 'h');
    reveal_strlit("csch");
    assert("csch"@.len() == 4);
    assert("csch"@[0] == 'c');
    assert("csch"@[1] == 's');
    assert("csch"@[2] == 'c');
    assert("csch"@[3] == 'h');
    reveal_strlit("asinh");
    assert("asinh"@.len() == 5);
    assert("asinh"@[0] == 'a');
    assert("asinh"@[1] == 's');
    assert("asinh"@[2] == 'i');
    assert("asinh"@[3] == 'n');
    assert("asinh"@[4] == 'h');
    reveal_strlit("acosh");
    assert("acosh"@.len() == 5);
    assert("acosh"@[0] == 'a');
    assert("acosh"@[1] == 'c');
    assert("acosh"@[2] == 'o');
    assert("acosh"@[3] == 's');
    assert("acosh"@[4] == 'h');
    reveal_strlit("atanh");
    assert("atanh"@.len() == 5);
    assert("atanh"@[0] == 'a');
    assert("atanh"@[1] == 't');
    assert("atanh"@[2] == 'a');
    assert("atanh"@[3] == 'n');
    assert("atanh"@[4] == 'h');
    reveal_strlit("acoth");
    assert("acoth"@.len() == 5);
    assert("acoth"@[0] == 'a');
    assert("acoth"@[1] == 'c');
    assert("acoth"@[2] == 'o');
    assert("acoth"@[3] == 't');
    assert("acoth"@[4] == 'h');
    reveal_strlit("asech");
    assert("asech"@.len() == 5);
    assert("asech"@[0] == 'a');
    assert("asech"@[1] == 's');
    assert("asech"@[2] == 'e');
    assert("asech"@[3] == 'c');
    assert("asech"@[4] == 'h');
    reveal_strlit("acsch");
    assert("acsch"@.len() == 5);
    assert("acsch"@[0] == 'a');
    assert("acsch"@[1] == 'c');
    assert("acsch"@[2] == 's');
    assert("acsch"@[3] == 'c');
    assert("acsch"@[4] == 'h');
    reveal_strlit("log10");
    assert("log10"@.len() == 5);
    assert("log10"@[0] == 'l');
    assert("log10"@[1] == 'o');
    assert("log10"@[2] == 'g');
    assert("log10"@[3] == '1');
    assert("log10"@[4] == '0');
    reveal_strlit("log2");
    assert("log2"@.len() == 4);
    assert("log2"@[0] == 'l');
    assert("log2"@[1] == 'o');
    assert("log2"@[2] == 'g');
    assert("log2"@[3] == '2');
    reveal_strlit("log");
    assert("log"@.len() == 3);
    assert("log"@[0] == 'l');
    assert("log"@[1] == 'o');
    assert("log"@[2] == 'g');
    reveal_strlit("sinc");
    assert("sinc"@.len() == 4);
    assert("sinc"@[0] == 's');
    assert("sinc"@[1] == 'i');
    assert("sinc"@[2] == 'n');
    assert("sinc"@[3] == 'c');
    reveal_strlit("erf");
    assert("erf"@.len() == 3);
    assert("erf"@[0] == 'e');
    assert("erf"@[1] == 'r');
    assert("erf"@[2] == 'f');
    reveal_strlit("erfc");
    assert("erfc"@.len() == 4);
    assert("erfc"@[0] == 'e');
    assert("erfc"@[1] == 'r');
    assert("erfc"@[2] == 'f');
    assert("erfc"@[3] == 'c');
    reveal_strlit("gamma");
    assert("gamma"@.len() == 5);
    assert("gamma"@[0] == 'g');
    assert("gamma"@[1] == 'a');
    assert("gamma"@[2] == 'm');
    assert("gamma"@[3] == 'm');
    assert("gamma"@[4] == 'a');
    reveal_strlit("digamma");
    assert("digamma"@.len() == 7);
    assert("digamma"@[0] == 'd');
    assert("digamma"@[1] == 'i');
    assert("digamma"@[2] == 'g');
    assert("digamma"@[3] == 'a');
    assert("digamma"@[4] == 'm');
    assert("digamma"@[5] == 'm');
    assert("digamma"@[6] == 'a');
    reveal_strlit("trigamma");
    assert("trigamma"@.len() == 8);
    assert("trigamma"@[0] == 't');
    assert("trigamma"@[1] == 'r');
    assert("trigamma"@[2] == 'i');
    assert("trigamma"@[3] == 'g');
    assert("trigamma"@[4] == 'a');
    assert("trigamma"@[5] == 'm');
    assert("trigamma"@[6] == 'm');
    assert("trigamma"@[7] == 'a');
    reveal_strlit("tetragamma");
    assert("tetragamma"@.len() == 10);
    assert("tetragamma"@[0] == 't');
    assert("tetragamma"@[1] == 'e');
    assert("tetragamma"@[2] == 't');
    assert("tetragamma"@[3] == 'r');
    assert("tetragamma"@[4] == 'a');
    assert("tetragamma"@[5] == 'g');
    assert("tetragamma"@[6] == 'a');
    assert("tetragamma"@[7] == 'm');
    assert("tetragamma"@[8] == 'm');
    assert("tetragamma"@[9] == 'a');
    reveal_strlit("LambertW");
    assert("LambertW"@.len() == 8);
    assert("LambertW"@[0] == 'L');
    assert("LambertW"@[1] == 'a');
    assert("LambertW"@[2] == 'm');
    assert("LambertW"@[3] == 'b');
    assert("LambertW"@[4] == 'e');
    assert("LambertW"@[5] == 'r');
    assert("LambertW"@[6] == 't');
    assert("LambertW"@[7] == 'W');
}

/// Law: the chain rule for the functions of an order and an argument, with
/// their recurrences: `d polygamma(n, x) = polygamma(n + 1, x) * x'`,
/// `d J_n(x) = (1/2)(J_(n-1)(x) - J_(n+1)(x)) * x'`, `Y_n` alike,
/// `d I_n(x) = (1/2)(I_(n-1)(x) + I_(n+1)(x)) * x'`,
/// `d K_n(x) = (-1/2)(K_(n-1)(x) + K_(n+1)(x)) * x'`.
pub proof fn law_order_chain_rules_follow_recurrences(n: Node, x: Node, p: Node)
    ensures
        order_rule("polygamma"@, n, x, p) == times(Node::Call("polygamma"@, seq![plus(n, num(1)), x]), p),
        order_rule("besselj"@, n, x, p) == times(times(over(num(1), num(2)), minus(Node::Call("besselj"@, seq![minus(n, num(1)), x]), Node::Call("besselj"@, seq![plus(n, num(1)), x]))), p),
        order_rule("bessely"@, n, x, p) == times(times(over(num(1), num(2)), minus(Node::Call("bessely"@, seq![minus(n, num(1)), x]), Node::Call("bessely"@, seq![plus(n, num(1)), x]))), p),
        order_rule("besseli"@, n, x, p) == times(times(over(num(1), num(2)), plus(Node::Call("besseli"@, seq![minus(n, num(1)), x]), Node::Call("besseli"@, seq![plus(n, num(1)), x]))), p),
        order_rule("besselk"@, n, x, p) == times(times(over(num(-1), num(2)), plus(Node::Call("besselk"@, seq![minus(n, num(1)), x]), Node::Call("besselk"@, seq![plus(n, num(1)), x]))), p),
{
    reveal_strlit("polygamma");
    assert("polygamma"@.len() == 9);
    assert("polygamma"@[0] == 'p');
    assert("polygamma"@[1] == 'o');
    assert("polygamma"@[2] == 'l');
    assert("polygamma"@[3] == 'y');
    assert("polygamma"@[4] == 'g');
    assert("polygamma"@[5] == 'a');
    assert("polygamma"@[6] == 'm');
    assert("polygamma"@[7] == 'm');
    assert("polygamma"@[8] == 'a');
    reveal_strlit("besselj");
    assert("besselj"@.len() == 7);
    assert("besselj"@[0] == 'b');
    assert("besselj"@[1] == 'e');
    assert("besselj"@[2] == 's');
    assert("besselj"@[3] == 's');
    assert("besselj"@[4] == 'e');
    assert("besselj"@[5] == 'l');
    assert("besselj"@[6] == 'j');
    reveal_strlit("bessely");
    assert("bessely"@.len() == 7);
    assert("bessely"@[0] == 'b');
    assert("bessely"@[1] == 'e');
    assert("bessely"@[2] == 's');
    assert("bessely"@[3] == 's');
    assert("bessely"@[4] == 'e');
    assert("bessely"@[5] == 'l');
    assert("bessely"@[6] == 'y');
    reveal_strlit("besseli");
    assert("besseli"@.len() == 7);
    assert("besseli"@[0] == 'b');
    assert("besseli"@[1] == 'e');
    assert("besseli"@[2] == 's');
    assert("besseli"@[3] == 's');
    assert("besseli"@[4] == 'e');
    assert("besseli"@[5] == 'l');
    assert("besseli"@[6] == 'i');
    reveal_strlit("besselk");
    assert("besselk"@.len() == 7);
    assert("besselk"@[0] == 'b');
    assert("besselk"@[1] == 'e');
    assert("besselk"@[2] == 's');
    assert("besselk"@[3] == 's');
    assert("besselk"@[4] == 'e');
    assert("besselk"@[5] == 'l');
    assert("besselk"@[6] == 'k');
}

/// Whether `t` is built from integer literals and plain variables (no
/// derivative notation in `v`) with `+`, `-` and `*`.
pub open spec fn polynomial(t: Node, v: Seq<char>) -> bool
    decreases t,
{
    match t {
        Node::Num(n) => n.places() == 0,
        Node::Sym(s) => notation_bump(s, v) is None,
        Node::Add(a, b) => polynomial(*a, v) && polynomial(*b, v),
        Node::Sub(a, b) => polynomial(*a, v) && polynomial(*b, v),
        Node::Mul(a, b) => polynomial(*a, v) && polynomial(*b, v),
        _ => false,
    }
}

/// The value of `t` when each variable `s` holds the integer `env(s)`.
pub open spec fn value(t: Node, env: spec_fn(Seq<char>) -> int) -> int
    decreases t,
{
    match t {
        Node::Num(n) => n.mant(),
        Node::Sym(s) => env(s),
        Node::Add(a, b) => value(*a, env) + value(*b, env),
        Node::Sub(a, b) => value(*a, env) - value(*b, env),
        Node::Mul(a, b) => value(*a, env) * value(*b, env),
        _ => 0,
    }
}

/// The derivative of the value of `t` in the variable `v` at `env`, by the
/// sum, difference and product rules of calculus; a name in `fixed` is a constant.
pub open spec fn slope(t: Node, env: spec_fn(Seq<char>) -> int, v: Seq<char>, fixed: Set<Seq<char>>) -> int
    decreases t,
{
    match t {
        Node::Num(_) => 0,
        Node::Sym(s) => if s == v && !fixed.contains(s) { 1 } else { 0 },
        Node::Add(a, b) => slope(*a, env, v, fixed) + slope(*b, env, v, fixed),
        Node::Sub(a, b) => slope(*a, env, v, fixed) - slope(*b, env, v, fixed),
        Node::Mul(a, b) => slope(*a, env, v, fixed) * value(*b, env) + value(*a, env) * slope(*b, env, v, fixed),
        _ => 0,
    }
}

/// Law: the symbolic derivative of a polynomial evaluates to the derivative
/// of its value. For every integer value of the variables, the derivative
/// that `lderiv` builds has the value that the sum, difference and product
/// rules give.
pub proof fn law_derivative_of_polynomial_has_the_right_value(t: Node, v: Seq<char>, fixed: Set<Seq<char>>, env: spec_fn(Seq<char>) -> int)
    requires
        polynomial(t, v),
    ensures
        value(lderiv(t, v, fixed), env) == slope(t, env, v, fixed),
    decreases t,
{
    lemma_num_forms(0, int_num(0));
    lemma_num_forms(1, int_num(1));
    match t {
        Node::Add(a, b) => {
            law_derivative_of_polynomial_has_the_right_value(*a, v, fixed, env);
            law_derivative_of_polynomial_has_the_right_value(*b, v, fixed, env);
            assert(lderiv(t, v, fixed) == Node::Add(Box::new(lderiv(*a, v, fixed)), Box::new(lderiv(*b, v, fixed))));
            assert(value(lderiv(t, v, fixed), env) == value(lderiv(*a, v, fixed), env) + value(lderiv(*b, v, fixed), env));
            assert(slope(t, env, v, fixed) == slope(*a, env, v, fixed) + slope(*b, env, v, fixed));
        },
        Node::Sub(a, b) => {
            law_derivative_of_polynomial_has_the_right_value(*a, v, fixed, env);
            law_derivative_of_polynomial_has_the_right_value(*b, v, fixed, env);
            assert(lderiv(t, v, fixed) == Node::Sub(Box::new(lderiv(*a, v, fixed)), Box::new(lderiv(*b, v, fixed))));
            assert(value(lderiv(t, v, fixed), env) == value(lderiv(*a, v, fixed), env) - value(lderiv(*b, v, fixed), env));
        },
        Node::Mul(a, b) => {
            law_derivative_of_polynomial_has_the_right_value(*a, v, fixed, env);
            law_derivative_of_polynomial_has_the_right_value(*b, v, fixed, env);
            let da = lderiv(*a, v, fixed);
            let db = lderiv(*b, v, fixed);
            assert(lderiv(t, v, fixed) == Node::Add(Box::new(Node::Mul(Box::new(da), b)), Box::new(Node::Mul(a, Box::new(db)))));
            let left = Node::Mul(Box::new(da), b);
            let right = Node::Mul(a, Box::new(db));
            assert(value(left, env) == value(da, env) * value(*b, env));
            assert(value(right, env) == value(*a, env) * value(db, env));
            assert(value(lderiv(t, v, fixed), env) == value(left, env) + value(right, env));
        },
        Node::Num(n) => {
            assert(lderiv(t, v, fixed) == Node::Num(int_num(0)));
            assert(value(Node::Num(int_num(0)), env) == 0);
        },
        Node::Sym(name) => {
            assert(notation_bump(name, v) is None);
            if name == v && !fixed.contains(name) {
                assert(lderiv(t, v, fixed) == Node::Num(int_num(1)));
            } else {
                assert(lderiv(t, v, fixed) == Node::Num(int_num(0)));
            }
        },
        _ => {},
    }
}

} // verus!
