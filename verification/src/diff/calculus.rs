//! The outer derivatives checked against the rules of calculus.
//!
//! Each law below writes the derivative of a built-in function the way a
//! calculus text does, with `-t`, `t^2`, `1/t` and `f(u)` spelled out, and
//! states that the table gives exactly that.

use vstd::prelude::*;
use crate::number::int_num;
use crate::expr::Term;
use super::rules::{unary_outer, order_outer};
use super::engine::{deriv, derivs, zero, unit, nonzero, factor_terms, factor_term};
use crate::expr::construct::{is_zero_term, is_one_term, mentions, sub_term};

verus! {

/// The integer `i`.
pub open spec fn num(i: int) -> Term {
    Term::Num(int_num(i))
}

/// `-t`: the product of -1 and `t`.
pub open spec fn neg(t: Term) -> Term {
    Term::Prod(seq![num(-1), t])
}

/// `t^2`.
pub open spec fn sq(t: Term) -> Term {
    Term::Pow(Box::new(t), Box::new(num(2)))
}

/// `f(u)`.
pub open spec fn call(f: Seq<char>, u: Term) -> Term {
    Term::Call(f, seq![u])
}

/// `a / b`.
pub open spec fn over(a: Term, b: Term) -> Term {
    Term::Div(Box::new(a), Box::new(b))
}

/// `a + b`.
pub open spec fn sum2(a: Term, b: Term) -> Term {
    Term::Sum(seq![a, b])
}

/// `a * b`.
pub open spec fn prod2(a: Term, b: Term) -> Term {
    Term::Prod(seq![a, b])
}

/// Law: the derivatives of the built-in functions of one argument follow
/// calculus: `sin' = cos`, `cos' = -sin`, `tan' = sec^2`, `cot' = -csc^2`,
/// `sec' = sec tan`, `csc' = -csc cot`, `asin' = 1/sqrt(1 - u^2)`,
/// `acos' = -1/sqrt(1 - u^2)`, `atan' = 1/(1 + u^2)`, the hyperbolic
/// functions alike, `ln' = 1/u`, `log_b' = 1/(u ln b)`, `sqrt' = 1/(2 sqrt u)`,
/// `erf' = 2/sqrt(pi) exp(-u^2)`, `gamma' = gamma digamma`, and so on.
pub proof fn law_outer_derivatives_follow_calculus(u: Term)
    ensures
        unary_outer("sin"@, u) == Some(call("cos"@, u)),
        unary_outer("cos"@, u) == Some(neg(call("sin"@, u))),
        unary_outer("tan"@, u) == Some(sq(call("sec"@, u))),
        unary_outer("cot"@, u) == Some(neg(sq(call("csc"@, u)))),
        unary_outer("sec"@, u) == Some(prod2(call("sec"@, u), call("tan"@, u))),
        unary_outer("csc"@, u) == Some(Term::Prod(seq![num(-1), call("csc"@, u), call("cot"@, u)])),
        unary_outer("asin"@, u) == Some(over(num(1), call("sqrt"@, sum2(num(1), neg(sq(u)))))),
        unary_outer("acos"@, u) == Some(over(num(-1), call("sqrt"@, sum2(num(1), neg(sq(u)))))),
        unary_outer("atan"@, u) == Some(over(num(1), sum2(num(1), sq(u)))),
        unary_outer("acot"@, u) == Some(over(num(-1), sum2(num(1), sq(u)))),
        unary_outer("asec"@, u) == Some(over(num(1), prod2(u, call("sqrt"@, sum2(sq(u), num(-1)))))),
        unary_outer("acsc"@, u) == Some(over(num(-1), prod2(u, call("sqrt"@, sum2(sq(u), num(-1)))))),
        unary_outer("sinh"@, u) == Some(call("cosh"@, u)),
        unary_outer("cosh"@, u) == Some(call("sinh"@, u)),
        unary_outer("tanh"@, u) == Some(sum2(num(1), neg(sq(call("tanh"@, u))))),
        unary_outer("coth"@, u) == Some(neg(sq(call("csch"@, u)))),
        unary_outer("sech"@, u) == Some(Term::Prod(seq![num(-1), call("sech"@, u), call("tanh"@, u)])),
        unary_outer("csch"@, u) == Some(Term::Prod(seq![num(-1), call("csch"@, u), call("coth"@, u)])),
        unary_outer("asinh"@, u) == Some(over(num(1), call("sqrt"@, sum2(sq(u), num(1))))),
        unary_outer("acosh"@, u) == Some(over(num(1), call("sqrt"@, sum2(sq(u), num(-1))))),
        unary_outer("atanh"@, u) == Some(over(num(1), sum2(num(1), neg(sq(u))))),
        unary_outer("acoth"@, u) == Some(over(num(1), sum2(num(1), neg(sq(u))))),
        unary_outer("asech"@, u) == Some(over(num(-1), prod2(u, call("sqrt"@, sum2(num(1), neg(sq(u))))))),
        unary_outer("acsch"@, u) == Some(over(num(-1), prod2(u, call("sqrt"@, sum2(num(1), sq(u)))))),
        unary_outer("ln"@, u) == Some(over(num(1), u)),
        unary_outer("log"@, u) == Some(over(num(1), u)),
        unary_outer("log10"@, u) == Some(over(num(1), prod2(u, call("ln"@, num(10))))),
        unary_outer("log2"@, u) == Some(over(num(1), prod2(u, call("ln"@, num(2))))),
        unary_outer("sqrt"@, u) == Some(over(num(1), prod2(num(2), call("sqrt"@, u)))),
        unary_outer("cbrt"@, u) == Some(over(num(1), prod2(num(3), Term::Pow(Box::new(u), Box::new(over(num(2), num(3))))))),
        unary_outer("sinc"@, u) == Some(over(sum2(prod2(call("cos"@, u), u), neg(call("sin"@, u))), sq(u))),
        unary_outer("erf"@, u) == Some(prod2(over(num(2), call("sqrt"@, Term::Sym("pi"@))), call("exp"@, neg(sq(u))))),
        unary_outer("erfc"@, u) == Some(prod2(over(num(-2), call("sqrt"@, Term::Sym("pi"@))), call("exp"@, neg(sq(u))))),
        unary_outer("gamma"@, u) == Some(prod2(call("gamma"@, u), call("digamma"@, u))),
        unary_outer("digamma"@, u) == Some(call("trigamma"@, u)),
        unary_outer("trigamma"@, u) == Some(call("tetragamma"@, u)),
        unary_outer("tetragamma"@, u) == Some(Term::Call("polygamma"@, seq![num(3), u])),
        unary_outer("lambertw"@, u) == Some(over(call("lambertw"@, u), prod2(u, sum2(num(1), call("lambertw"@, u))))),
{
    reveal_strlit("sin");
    assert("sin"@.len() == 3);
    assert("sin"@[0] == 's');
    assert("sin"@[1] == 'i');
    assert("sin"@[2] == 'n');
    reveal_strlit("cos");
    assert("cos"@.len() == 3);
    assert("cos"@[0] == 'c');
    assert("cos"@[1] == 'o');
    assert("cos"@[2] == 's');
    reveal_strlit("tan");
    assert("tan"@.len() == 3);
    assert("tan"@[0] == 't');
    assert("tan"@[1] == 'a');
    assert("tan"@[2] == 'n');
    reveal_strlit("cot");
    assert("cot"@.len() == 3);
    assert("cot"@[0] == 'c');
    assert("cot"@[1] == 'o');
    assert("cot"@[2] == 't');
    reveal_strlit("sec");
    assert("sec"@.len() == 3);
    assert("sec"@[0] == 's');
    assert("sec"@[1] == 'e');
    assert("sec"@[2] == 'c');
    reveal_strlit("csc");
    assert("csc"@.len() == 3);
    assert("csc"@[0] == 'c');
    assert("csc"@[1] == 's');
    assert("csc"@[2] == 'c');
    reveal_strlit("asin");
    assert("asin"@.len() == 4);
    assert("asin"@[0] == 'a');
    assert("asin"@[1] == 's');
    assert("asin"@[2] == 'i');
    assert("asin"@[3] == 'n');
    reveal_strlit("acos");
    assert("acos"@.len() == 4);
    assert("acos"@[0] == 'a');
    assert("acos"@[1] == 'c');
    assert("acos"@[2] == 'o');
    assert("acos"@[3] == 's');
    reveal_strlit("atan");
    assert("atan"@.len() == 4);
    assert("atan"@[0] == 'a');
    assert("atan"@[1] == 't');
    assert("atan"@[2] == 'a');
    assert("atan"@[3] == 'n');
    reveal_strlit("acot");
    assert("acot"@.len() == 4);
    assert("acot"@[0] == 'a');
    assert("acot"@[1] == 'c');
    assert("acot"@[2] == 'o');
    assert("acot"@[3] == 't');
    reveal_strlit("asec");
    assert("asec"@.len() == 4);
    assert("asec"@[0] == 'a');
    assert("asec"@[1] == 's');
    assert("asec"@[2] == 'e');
    assert("asec"@[3] == 'c');
    reveal_strlit("acsc");
    assert("acsc"@.len() == 4);
    assert("acsc"@[0] == 'a');
    assert("acsc"@[1] == 'c');
    assert("acsc"@[2] == 's');
    assert("acsc"@[3] == 'c');
    reveal_strlit("sinh");
    assert("sinh"@.len() == 4);
    assert("sinh"@[0] == 's');
    assert("sinh"@[1] == 'i');
    assert("sinh"@[2] == 'n');
    assert("sinh"@[3] == 'h');
    reveal_strlit("cosh");
    assert("cosh"@.len() == 4);
    assert("cosh"@[0] == 'c');
    assert("cosh"@[1] == 'o');
    assert("cosh"@[2] == 's');
    assert("cosh"@[3] == 'h');
    reveal_strlit("tanh");
    assert("tanh"@.len() == 4);
    assert("tanh"@[0] == 't');
    assert("tanh"@[1] == 'a');
    assert("tanh"@[2] == 'n');
    assert("tanh"@[3] == 'h');
    reveal_strlit("coth");
    assert("coth"@.len() == 4);
    assert("coth"@[0] == 'c');
    assert("coth"@[1] == 'o');
    assert("coth"@[2] == 't');
    assert("coth"@[3] == 'h');
    reveal_strlit("sech");
    assert("sech"@.len() == 4);
    assert("sech"@[0] == 's');
    assert("sech"@[1] == 'e');
    assert("sech"@[2] == 'c');
    assert("sech"@[3] == 'h');
    reveal_strlit("csch");
    assert("csch"@.len() == 4);
    assert("csch"@[0] == 'c');
    assert("csch"@[1] == 's');
    assert("csch"@[2] == 'c');
    assert("csch"@[3] == 'h');
    reveal_strlit("asinh");
    assert("asinh"@.len() == 5);
    assert("asinh"@[0] == 'a');
    assert("asinh"@[1] == 's');
    assert("asinh"@[2] == 'i');
    assert("asinh"@[3] == 'n');
    assert("asinh"@[4] == 'h');
    reveal_strlit("acosh");
    assert("acosh"@.len() == 5);
    assert("acosh"@[0] == 'a');
    assert("acosh"@[1] == 'c');
    assert("acosh"@[2] == 'o');
    assert("acosh"@[3] == 's');
    assert("acosh"@[4] == 'h');
    reveal_strlit("atanh");
    assert("atanh"@.len() == 5);
    assert("atanh"@[0] == 'a');
    assert("atanh"@[1] == 't');
    assert("atanh"@[2] == 'a');
    assert("atanh"@[3] == 'n');
    assert("atanh"@[4] == 'h');
    reveal_strlit("acoth");
    assert("acoth"@.len() == 5);
    assert("acoth"@[0] == 'a');
    assert("acoth"@[1] == 'c');
    assert("acoth"@[2] == 'o');
    assert("acoth"@[3] == 't');
    assert("acoth"@[4] == 'h');
    reveal_strlit("asech");
    assert("asech"@.len() == 5);
    assert("asech"@[0] == 'a');
    assert("asech"@[1] == 's');
    assert("asech"@[2] == 'e');
    assert("asech"@[3] == 'c');
    assert("asech"@[4] == 'h');
    reveal_strlit("acsch");
    assert("acsch"@.len() == 5);
    assert("acsch"@[0] == 'a');
    assert("acsch"@[1] == 'c');
    assert("acsch"@[2] == 's');
    assert("acsch"@[3] == 'c');
    assert("acsch"@[4] == 'h');
    reveal_strlit("ln");
    assert("ln"@.len() == 2);
    assert("ln"@[0] == 'l');
    assert("ln"@[1] == 'n');
    reveal_strlit("log");
    assert("log"@.len() == 3);
    assert("log"@[0] == 'l');
    assert("log"@[1] == 'o');
    assert("log"@[2] == 'g');
    reveal_strlit("log10");
    assert("log10"@.len() == 5);
    assert("log10"@[0] == 'l');
    assert("log10"@[1] == 'o');
    assert("log10"@[2] == 'g');
    assert("log10"@[3] == '1');
    assert("log10"@[4] == '0');
    reveal_strlit("log2");
    assert("log2"@.len() == 4);
    assert("log2"@[0] == 'l');
    assert("log2"@[1] == 'o');
    assert("log2"@[2] == 'g');
    assert("log2"@[3] == '2');
    reveal_strlit("sqrt");
    assert("sqrt"@.len() == 4);
    assert("sqrt"@[0] == 's');
    assert("sqrt"@[1] == 'q');
    assert("sqrt"@[2] == 'r');
    assert("sqrt"@[3] == 't');
    reveal_strlit("cbrt");
    assert("cbrt"@.len() == 4);
    assert("cbrt"@[0] == 'c');
    assert("cbrt"@[1] == 'b');
    assert("cbrt"@[2] == 'r');
    assert("cbrt"@[3] == 't');
    reveal_strlit("sinc");
    assert("sinc"@.len() == 4);
    assert("sinc"@[0] == 's');
    assert("sinc"@[1] == 'i');
    assert("sinc"@[2] == 'n');
    assert("sinc"@[3] == 'c');
    reveal_strlit("erf");
    assert("erf"@.len() == 3);
    assert("erf"@[0] == 'e');
    assert("erf"@[1] == 'r');
    assert("erf"@[2] == 'f');
    reveal_strlit("erfc");
    assert("erfc"@.len() == 4);
    assert("erfc"@[0] == 'e');
    assert("erfc"@[1] == 'r');
    assert("erfc"@[2] == 'f');
    assert("erfc"@[3] == 'c');
    reveal_strlit("gamma");
    assert("gamma"@.len() == 5);
    assert("gamma"@[0] == 'g');
    assert("gamma"@[1] == 'a');
    assert("gamma"@[2] == 'm');
    assert("gamma"@[3] == 'm');
    assert("gamma"@[4] == 'a');
    reveal_strlit("digamma");
    assert("digamma"@.len() == 7);
    assert("digamma"@[0] == 'd');
    assert("digamma"@[1] == 'i');
    assert("digamma"@[2] == 'g');
    assert("digamma"@[3] == 'a');
    assert("digamma"@[4] == 'm');
    assert("digamma"@[5] == 'm');
    assert("digamma"@[6] == 'a');
    reveal_strlit("trigamma");
    assert("trigamma"@.len() == 8);
    assert("trigamma"@[0] == 't');
    assert("trigamma"@[1] == 'r');
    assert("trigamma"@[2] == 'i');
    assert("trigamma"@[3] == 'g');
    assert("trigamma"@[4] == 'a');
    assert("trigamma"@[5] == 'm');
    assert("trigamma"@[6] == 'm');
    assert("trigamma"@[7] == 'a');
    reveal_strlit("tetragamma");
    assert("tetragamma"@.len() == 10);
    assert("tetragamma"@[0] == 't');
    assert("tetragamma"@[1] == 'e');
    assert("tetragamma"@[2] == 't');
    assert("tetragamma"@[3] == 'r');
    assert("tetragamma"@[4] == 'a');
    assert("tetragamma"@[5] == 'g');
    assert("tetragamma"@[6] == 'a');
    assert("tetragamma"@[7] == 'm');
    assert("tetragamma"@[8] == 'm');
    assert("tetragamma"@[9] == 'a');
    reveal_strlit("lambertw");
    assert("lambertw"@.len() == 8);
    assert("lambertw"@[0] == 'l');
    assert("lambertw"@[1] == 'a');
    assert("lambertw"@[2] == 'm');
    assert("lambertw"@[3] == 'b');
    assert("lambertw"@[4] == 'e');
    assert("lambertw"@[5] == 'r');
    assert("lambertw"@[6] == 't');
    assert("lambertw"@[7] == 'w');
    reveal_strlit("polygamma");
    assert("polygamma"@.len() == 9);
    assert("polygamma"@[0] == 'p');
    assert("polygamma"@[1] == 'o');
    assert("polygamma"@[2] == 'l');
    assert("polygamma"@[3] == 'y');
    assert("polygamma"@[4] == 'g');
    assert("polygamma"@[5] == 'a');
    assert("polygamma"@[6] == 'm');
    assert("polygamma"@[7] == 'm');
    assert("polygamma"@[8] == 'a');
    reveal_strlit("besselj");
    assert("besselj"@.len() == 7);
    assert("besselj"@[0] == 'b');
    assert("besselj"@[1] == 'e');
    assert("besselj"@[2] == 's');
    assert("besselj"@[3] == 's');
    assert("besselj"@[4] == 'e');
    assert("besselj"@[5] == 'l');
    assert("besselj"@[6] == 'j');
    reveal_strlit("bessely");
    assert("bessely"@.len() == 7);
    assert("bessely"@[0] == 'b');
    assert("bessely"@[1] == 'e');
    assert("bessely"@[2] == 's');
    assert("bessely"@[3] == 's');
    assert("bessely"@[4] == 'e');
    assert("bessely"@[5] == 'l');
    assert("bessely"@[6] == 'y');
    reveal_strlit("besseli");
    assert("besseli"@.len() == 7);
    assert("besseli"@[0] == 'b');
    assert("besseli"@[1] == 'e');
    assert("besseli"@[2] == 's');
    assert("besseli"@[3] == 's');
    assert("besseli"@[4] == 'e');
    assert("besseli"@[5] == 'l');
    assert("besseli"@[6] == 'i');
    reveal_strlit("besselk");
    assert("besselk"@.len() == 7);
    assert("besselk"@[0] == 'b');
    assert("besselk"@[1] == 'e');
    assert("besselk"@[2] == 's');
    assert("besselk"@[3] == 's');
    assert("besselk"@[4] == 'e');
    assert("besselk"@[5] == 'l');
    assert("besselk"@[6] == 'k');
}

/// Law: the derivatives in the argument of the functions of an order and an
/// argument follow their recurrences: `d/dx polygamma(n, x) = polygamma(n + 1, x)`,
/// `J_n' = (J_(n-1) - J_(n+1))/2`, `Y_n` alike, `I_n' = (I_(n-1) + I_(n+1))/2`,
/// `K_n' = -(K_(n-1) + K_(n+1))/2`.
pub proof fn law_order_derivatives_follow_recurrences(n: Term, x: Term)
    ensures
        order_outer("polygamma"@, n, x) == Some(Term::Call("polygamma"@, seq![sum2(n, num(1)), x])),
        order_outer("besselj"@, n, x) == Some(prod2(over(num(1), num(2)), sum2(Term::Call("besselj"@, seq![sum2(n, num(-1)), x]), neg(Term::Call("besselj"@, seq![sum2(n, num(1)), x]))))),
        order_outer("bessely"@, n, x) == Some(prod2(over(num(1), num(2)), sum2(Term::Call("bessely"@, seq![sum2(n, num(-1)), x]), neg(Term::Call("bessely"@, seq![sum2(n, num(1)), x]))))),
        order_outer("besseli"@, n, x) == Some(prod2(over(num(1), num(2)), sum2(Term::Call("besseli"@, seq![sum2(n, num(-1)), x]), Term::Call("besseli"@, seq![sum2(n, num(1)), x])))),
        order_outer("besselk"@, n, x) == Some(prod2(over(num(-1), num(2)), sum2(Term::Call("besselk"@, seq![sum2(n, num(-1)), x]), Term::Call("besselk"@, seq![sum2(n, num(1)), x])))),
{
    reveal_strlit("polygamma");
    assert("polygamma"@.len() == 9);
    assert("polygamma"@[0] == 'p');
    assert("polygamma"@[1] == 'o');
    assert("polygamma"@[2] == 'l');
    assert("polygamma"@[3] == 'y');
    assert("polygamma"@[4] == 'g');
    assert("polygamma"@[5] == 'a');
    assert("polygamma"@[6] == 'm');
    assert("polygamma"@[7] == 'm');
    assert("polygamma"@[8] == 'a');
    reveal_strlit("besselj");
    assert("besselj"@.len() == 7);
    assert("besselj"@[0] == 'b');
    assert("besselj"@[1] == 'e');
    assert("besselj"@[2] == 's');
    assert("besselj"@[3] == 's');
    assert("besselj"@[4] == 'e');
    assert("besselj"@[5] == 'l');
    assert("besselj"@[6] == 'j');
    reveal_strlit("bessely");
    assert("bessely"@.len() == 7);
    assert("bessely"@[0] == 'b');
    assert("bessely"@[1] == 'e');
    assert("bessely"@[2] == 's');
    assert("bessely"@[3] == 's');
    assert("bessely"@[4] == 'e');
    assert("bessely"@[5] == 'l');
    assert("bessely"@[6] == 'y');
    reveal_strlit("besseli");
    assert("besseli"@.len() == 7);
    assert("besseli"@[0] == 'b');
    assert("besseli"@[1] == 'e');
    assert("besseli"@[2] == 's');
    assert("besseli"@[3] == 's');
    assert("besseli"@[4] == 'e');
    assert("besseli"@[5] == 'l');
    assert("besseli"@[6] == 'i');
    reveal_strlit("besselk");
    assert("besselk"@.len() == 7);
    assert("besselk"@[0] == 'b');
    assert("besselk"@[1] == 'e');
    assert("besselk"@[2] == 's');
    assert("besselk"@[3] == 's');
    assert("besselk"@[4] == 'e');
    assert("besselk"@[5] == 'l');
    assert("besselk"@[6] == 'k');
}

/// A derivative that is neither the literal 0 nor the literal 1.
pub open spec fn plain(d: Term) -> bool {
    !is_zero_term(d) && !is_one_term(d)
}

/// The derivatives of one and of two terms.
proof fn lemma_derivs_small(a: Term, b: Term, v: Seq<char>)
    ensures
        derivs(seq![a], v) == seq![deriv(a, v)],
        derivs(seq![a, b], v) == seq![deriv(a, v), deriv(b, v)],
{
    assert(seq![a].drop_last() =~= Seq::<Term>::empty());
    assert(seq![a, b].drop_last() =~= seq![a]);
    assert(derivs(Seq::<Term>::empty(), v) =~= Seq::<Term>::empty());
    assert(derivs(seq![a], v) == derivs(Seq::<Term>::empty(), v).push(deriv(a, v)));
    assert(derivs(seq![a], v) =~= seq![deriv(a, v)]);
    assert(derivs(seq![a, b], v) == derivs(seq![a], v).push(deriv(b, v)));
    assert(derivs(seq![a, b], v) =~= seq![deriv(a, v), deriv(b, v)]);
}

/// Law (sum rule): the derivative of `a + b` is `a' + b'`, where neither
/// derivative is the literal zero; a term whose derivative is zero drops out.
pub proof fn law_sum_rule(a: Term, b: Term, v: Seq<char>)
    ensures
        !is_zero_term(deriv(a, v)) && !is_zero_term(deriv(b, v)) ==>
            deriv(sum2(a, b), v) == sum2(deriv(a, v), deriv(b, v)),
        is_zero_term(deriv(b, v)) && !is_zero_term(deriv(a, v)) ==> deriv(sum2(a, b), v) == deriv(a, v),
        is_zero_term(deriv(a, v)) && is_zero_term(deriv(b, v)) ==> deriv(sum2(a, b), v) == zero(),
{
    lemma_derivs_small(a, b, v);
    let da = deriv(a, v);
    let db = deriv(b, v);
    let d = seq![da, db];
    assert(d.drop_last() =~= seq![da]);
    assert(seq![da].drop_last() =~= Seq::<Term>::empty());
    assert(nonzero(d) == (if is_zero_term(db) { nonzero(seq![da]) } else { nonzero(seq![da]).push(db) }));
    assert(nonzero(seq![da]) == (if is_zero_term(da) { nonzero(Seq::<Term>::empty()) } else { nonzero(Seq::<Term>::empty()).push(da) }));
    assert(nonzero(Seq::<Term>::empty()) =~= Seq::<Term>::empty());
    assert(Seq::<Term>::empty().push(da) =~= seq![da]);
    assert(seq![da].push(db) =~= d);
    let d = seq![deriv(a, v), deriv(b, v)];
    assert(d.drop_last() =~= seq![deriv(a, v)]);
    assert(seq![deriv(a, v)].drop_last() =~= Seq::<Term>::empty());
}

/// Law (product rule): the derivative of `a * b`, for factors that are not
/// literals and whose derivatives are neither 0 nor 1, is `b a' + a b'`.
pub proof fn law_product_rule(a: Term, b: Term, v: Seq<char>)
    requires
        !(a is Num),
        !(b is Num),
        plain(deriv(a, v)),
        plain(deriv(b, v)),
    ensures
        deriv(prod2(a, b), v) == sum2(prod2(b, deriv(a, v)), prod2(a, deriv(b, v))),
{
    let fs = seq![a, b];
    lemma_derivs_small(a, b, v);
    let ps = seq![deriv(a, v), deriv(b, v)];
    assert(factor_terms(fs, ps, 0) =~= Seq::<Term>::empty());
    assert(factor_terms(fs, ps, 1) == factor_terms(fs, ps, 0).push(factor_term(fs, ps, 0)));
    assert(factor_terms(fs, ps, 2) == factor_terms(fs, ps, 1).push(factor_term(fs, ps, 1)));
    assert(factor_terms(fs, ps, 2) =~= seq![factor_term(fs, ps, 0), factor_term(fs, ps, 1)]);
    assert(fs.remove(0) =~= seq![b]);
    assert(fs.remove(1) =~= seq![a]);
    assert(seq![b].push(deriv(a, v)) =~= seq![b, deriv(a, v)]);
    assert(seq![a].push(deriv(b, v)) =~= seq![a, deriv(b, v)]);
}

/// Law (quotient rule): the derivative of `u / w`, for `u` and `w` that are not
/// literals and whose derivatives are not zero, is `(u' w - u w') / w^2`.
pub proof fn law_quotient_rule(u: Term, w: Term, v: Seq<char>)
    requires
        !(u is Num),
        !(w is Num),
        !is_zero_term(deriv(u, v)),
        !is_zero_term(deriv(w, v)),
    ensures
        deriv(over(u, w), v) == over(sub_term(prod2(deriv(u, v), w), prod2(u, deriv(w, v))), sq(w)),
{
}

/// Law (power rule): the derivative of `u^k` for an exponent `k` free of the
/// variable, not zero, and a base whose derivative is neither 0 nor 1, is
/// `k u^(k - 1) u'`.
pub proof fn law_power_rule(u: Term, k: Term, v: Seq<char>)
    requires
        mentions(u, v),
        !mentions(k, v),
        !is_zero_term(k),
        plain(deriv(u, v)),
    ensures
        deriv(Term::Pow(Box::new(u), Box::new(k)), v)
            == Term::Prod(seq![k, Term::Pow(Box::new(u), Box::new(sub_term(k, unit()))), deriv(u, v)]),
{
}

/// Law (chain rule): the derivative of `f(u)` for a built-in function of one
/// argument other than `exp`, with `u'` neither 0 nor 1, is `f'(u) u'`; and
/// `exp(u)` differentiates to `exp(u) u'`.
pub proof fn law_chain_rule(f: Seq<char>, u: Term, v: Seq<char>)
    requires
        f != "exp"@,
        unary_outer(f, u) is Some,
        plain(deriv(u, v)),
    ensures
        deriv(call(f, u), v) == prod2(unary_outer(f, u)->0, deriv(u, v)),
        deriv(call("exp"@, u), v) == prod2(call("exp"@, u), deriv(u, v)),
{
    lemma_derivs_small(u, u, v);
}

} // verus!
