//! The outer derivatives of the built-in functions.
//!
//! For a function of one argument `f(u)` the table gives `f'(u)`; for the
//! functions of an order and an argument `f(n, x)` it gives the derivative
//! with respect to `x`. The engine multiplies by the inner derivative.

use vstd::prelude::*;
use crate::number::int_num;
use crate::text::string_is;
use crate::expr::{Expr, Term, terms_of};
use crate::expr::construct::{pair, triple, one};

verus! {

/// The model of an optional expression.
pub open spec fn opt_term(r: Option<Expr>) -> Option<Term> {
    match r {
        Some(e) => Some(e@),
        None => None,
    }
}

/// `f'(u)` for the built-in functions of one argument named `name`.
pub open spec fn unary_outer(name: Seq<char>, u: Term) -> Option<Term> {
    if name == "sin"@ {
        Some(Term::Call("cos"@, seq![u]))
    } else if name == "cos"@ {
        Some(Term::Prod(seq![Term::Num(int_num(-1)), Term::Call("sin"@, seq![u])]))
    } else if name == "tan"@ {
        Some(Term::Pow(Box::new(Term::Call("sec"@, seq![u])), Box::new(Term::Num(int_num(2)))))
    } else if name == "cot"@ {
        Some(Term::Prod(seq![Term::Num(int_num(-1)), Term::Pow(Box::new(Term::Call("csc"@, seq![u])), Box::new(Term::Num(int_num(2))))]))
    } else if name == "sec"@ {
        Some(Term::Prod(seq![Term::Call("sec"@, seq![u]), Term::Call("tan"@, seq![u])]))
    } else if name == "csc"@ {
        Some(Term::Prod(seq![Term::Num(int_num(-1)), Term::Call("csc"@, seq![u]), Term::Call("cot"@, seq![u])]))
    } else if name == "asin"@ {
        Some(Term::Div(Box::new(Term::Num(int_num(1))), Box::new(Term::Call("sqrt"@, seq![Term::Sum(seq![Term::Num(int_num(1)), Term::Prod(seq![Term::Num(int_num(-1)), Term::Pow(Box::new(u), Box::new(Term::Num(int_num(2))))])])]))))
    } else if name == "acos"@ {
        Some(Term::Div(Box::new(Term::Num(int_num(-1))), Box::new(Term::Call("sqrt"@, seq![Term::Sum(seq![Term::Num(int_num(1)), Term::Prod(seq![Term::Num(int_num(-1)), Term::Pow(Box::new(u), Box::new(Term::Num(int_num(2))))])])]))))
    } else if name == "atan"@ {
        Some(Term::Div(Box::new(Term::Num(int_num(1))), Box::new(Term::Sum(seq![Term::Num(int_num(1)), Term::Pow(Box::new(u), Box::new(Term::Num(int_num(2))))]))))
    } else if name == "acot"@ {
        Some(Term::Div(Box::new(Term::Num(int_num(-1))), Box::new(Term::Sum(seq![Term::Num(int_num(1)), Term::Pow(Box::new(u), Box::new(Term::Num(int_num(2))))]))))
    } else if name == "asec"@ {
        Some(Term::Div(Box::new(Term::Num(int_num(1))), Box::new(Term::Prod(seq![u, Term::Call("sqrt"@, seq![Term::Sum(seq![Term::Pow(Box::new(u), Box::new(Term::Num(int_num(2)))), Term::Num(int_num(-1))])])]))))
    } else if name == "acsc"@ {
        Some(Term::Div(Box::new(Term::Num(int_num(-1))), Box::new(Term::Prod(seq![u, Term::Call("sqrt"@, seq![Term::Sum(seq![Term::Pow(Box::new(u), Box::new(Term::Num(int_num(2)))), Term::Num(int_num(-1))])])]))))
    } else if name == "sinh"@ {
        Some(Term::Call("cosh"@, seq![u]))
    } else if name == "cosh"@ {
        Some(Term::Call("sinh"@, seq![u]))
    } else if name == "tanh"@ {
        Some(Term::Sum(seq![Term::Num(int_num(1)), Term::Prod(seq![Term::Num(int_num(-1)), Term::Pow(Box::new(Term::Call("tanh"@, seq![u])), Box::new(Term::Num(int_num(2))))])]))
    } else if name == "coth"@ {
        Some(Term::Prod(seq![Term::Num(int_num(-1)), Term::Pow(Box::new(Term::Call("csch"@, seq![u])), Box::new(Term::Num(int_num(2))))]))
    } else if name == "sech"@ {
        Some(Term::Prod(seq![Term::Num(int_num(-1)), Term::Call("sech"@, seq![u]), Term::Call("tanh"@, seq![u])]))
    } else if name == "csch"@ {
        Some(Term::Prod(seq![Term::Num(int_num(-1)), Term::Call("csch"@, seq![u]), Term::Call("coth"@, seq![u])]))
    } else if name == "asinh"@ {
        Some(Term::Div(Box::new(Term::Num(int_num(1))), Box::new(Term::Call("sqrt"@, seq![Term::Sum(seq![Term::Pow(Box::new(u), Box::new(Term::Num(int_num(2)))), Term::Num(int_num(1))])]))))
    } else if name == "acosh"@ {
        Some(Term::Div(Box::new(Term::Num(int_num(1))), Box::new(Term::Call("sqrt"@, seq![Term::Sum(seq![Term::Pow(Box::new(u), Box::new(Term::Num(int_num(2)))), Term::Num(int_num(-1))])]))))
    } else if name == "atanh"@ {
        Some(Term::Div(Box::new(Term::Num(int_num(1))), Box::new(Term::Sum(seq![Term::Num(int_num(1)), Term::Prod(seq![Term::Num(int_num(-1)), Term::Pow(Box::new(u), Box::new(Term::Num(int_num(2))))])]))))
    } else if name == "acoth"@ {
        Some(Term::Div(Box::new(Term::Num(int_num(1))), Box::new(Term::Sum(seq![Term::Num(int_num(1)), Term::Prod(seq![Term::Num(int_num(-1)), Term::Pow(Box::new(u), Box::new(Term::Num(int_num(2))))])]))))
    } else if name == "asech"@ {
        Some(Term::Div(Box::new(Term::Num(int_num(-1))), Box::new(Term::Prod(seq![u, Term::Call("sqrt"@, seq![Term::Sum(seq![Term::Num(int_num(1)), Term::Prod(seq![Term::Num(int_num(-1)), Term::Pow(Box::new(u), Box::new(Term::Num(int_num(2))))])])])]))))
    } else if name == "acsch"@ {
        Some(Term::Div(Box::new(Term::Num(int_num(-1))), Box::new(Term::Prod(seq![u, Term::Call("sqrt"@, seq![Term::Sum(seq![Term::Num(int_num(1)), Term::Pow(Box::new(u), Box::new(Term::Num(int_num(2))))])])]))))
    } else if name == "ln"@ {
        Some(Term::Div(Box::new(Term::Num(int_num(1))), Box::new(u)))
    } else if name == "log"@ {
        Some(Term::Div(Box::new(Term::Num(int_num(1))), Box::new(u)))
    } else if name == "log10"@ {
        Some(Term::Div(Box::new(Term::Num(int_num(1))), Box::new(Term::Prod(seq![u, Term::Call("ln"@, seq![Term::Num(int_num(10))])]))))
    } else if name == "log2"@ {
        Some(Term::Div(Box::new(Term::Num(int_num(1))), Box::new(Term::Prod(seq![u, Term::Call("ln"@, seq![Term::Num(int_num(2))])]))))
    } else if name == "sqrt"@ {
        Some(Term::Div(Box::new(Term::Num(int_num(1))), Box::new(Term::Prod(seq![Term::Num(int_num(2)), Term::Call("sqrt"@, seq![u])]))))
    } else if name == "cbrt"@ {
        Some(Term::Div(Box::new(Term::Num(int_num(1))), Box::new(Term::Prod(seq![Term::Num(int_num(3)), Term::Pow(Box::new(u), Box::new(Term::Div(Box::new(Term::Num(int_num(2))), Box::new(Term::Num(int_num(3))))))]))))
    } else if name == "sinc"@ {
        Some(Term::Div(Box::new(Term::Sum(seq![Term::Prod(seq![Term::Call("cos"@, seq![u]), u]), Term::Prod(seq![Term::Num(int_num(-1)), Term::Call("sin"@, seq![u])])])), Box::new(Term::Pow(Box::new(u), Box::new(Term::Num(int_num(2)))))))
    } else if name == "erf"@ {
        Some(Term::Prod(seq![Term::Div(Box::new(Term::Num(int_num(2))), Box::new(Term::Call("sqrt"@, seq![Term::Sym("pi"@)]))), Term::Call("exp"@, seq![Term::Prod(seq![Term::Num(int_num(-1)), Term::Pow(Box::new(u), Box::new(Term::Num(int_num(2))))])])]))
    } else if name == "erfc"@ {
        Some(Term::Prod(seq![Term::Div(Box::new(Term::Num(int_num(-2))), Box::new(Term::Call("sqrt"@, seq![Term::Sym("pi"@)]))), Term::Call("exp"@, seq![Term::Prod(seq![Term::Num(int_num(-1)), Term::Pow(Box::new(u), Box::new(Term::Num(int_num(2))))])])]))
    } else if name == "gamma"@ {
        Some(Term::Prod(seq![Term::Call("gamma"@, seq![u]), Term::Call("digamma"@, seq![u])]))
    } else if name == "digamma"@ {
        Some(Term::Call("trigamma"@, seq![u]))
    } else if name == "trigamma"@ {
        Some(Term::Call("tetragamma"@, seq![u]))
    } else if name == "tetragamma"@ {
        Some(Term::Call("polygamma"@, seq![Term::Num(int_num(3)), u]))
    } else if name == "lambertw"@ {
        Some(Term::Div(Box::new(Term::Call("lambertw"@, seq![u])), Box::new(Term::Prod(seq![u, Term::Sum(seq![Term::Num(int_num(1)), Term::Call("lambertw"@, seq![u])])]))))
    } else {
        None
    }
}

/// `d/dx f(n, x)` for the built-in functions of an order and an argument.
pub open spec fn order_outer(name: Seq<char>, n: Term, x: Term) -> Option<Term> {
    if name == "polygamma"@ {
        Some(Term::Call("polygamma"@, seq![Term::Sum(seq![n, Term::Num(int_num(1))]), x]))
    } else if name == "besselj"@ {
        Some(Term::Prod(seq![Term::Div(Box::new(Term::Num(int_num(1))), Box::new(Term::Num(int_num(2)))), Term::Sum(seq![Term::Call("besselj"@, seq![Term::Sum(seq![n, Term::Num(int_num(-1))]), x]), Term::Prod(seq![Term::Num(int_num(-1)), Term::Call("besselj"@, seq![Term::Sum(seq![n, Term::Num(int_num(1))]), x])])])]))
    } else if name == "bessely"@ {
        Some(Term::Prod(seq![Term::Div(Box::new(Term::Num(int_num(1))), Box::new(Term::Num(int_num(2)))), Term::Sum(seq![Term::Call("bessely"@, seq![Term::Sum(seq![n, Term::Num(int_num(-1))]), x]), Term::Prod(seq![Term::Num(int_num(-1)), Term::Call("bessely"@, seq![Term::Sum(seq![n, Term::Num(int_num(1))]), x])])])]))
    } else if name == "besseli"@ {
        Some(Term::Prod(seq![Term::Div(Box::new(Term::Num(int_num(1))), Box::new(Term::Num(int_num(2)))), Term::Sum(seq![Term::Call("besseli"@, seq![Term::Sum(seq![n, Term::Num(int_num(-1))]), x]), Term::Call("besseli"@, seq![Term::Sum(seq![n, Term::Num(int_num(1))]), x])])]))
    } else if name == "besselk"@ {
        Some(Term::Prod(seq![Term::Div(Box::new(Term::Num(int_num(-1))), Box::new(Term::Num(int_num(2)))), Term::Sum(seq![Term::Call("besselk"@, seq![Term::Sum(seq![n, Term::Num(int_num(-1))]), x]), Term::Call("besselk"@, seq![Term::Sum(seq![n, Term::Num(int_num(1))]), x])])]))
    } else {
        None
    }
}

/// `f'(u)` for a built-in function of one argument, if `name` is one.
#[verifier::rlimit(50)]
pub fn unary_outer_exec(name: &String, u: &Expr) -> (r: Option<Expr>)
    ensures
        opt_term(r) == unary_outer(name@, u@),
{
    if string_is(name, "sin") {
        Some(Expr::func("cos", u.deep_copy()))
    } else if string_is(name, "cos") {
        Some(Expr::product(pair(Expr::integer(-1), Expr::func("sin", u.deep_copy()))))
    } else if string_is(name, "tan") {
        Some(Expr::pow_static(Expr::func("sec", u.deep_copy()), Expr::integer(2)))
    } else if string_is(name, "cot") {
        Some(Expr::product(pair(Expr::integer(-1), Expr::pow_static(Expr::func("csc", u.deep_copy()), Expr::integer(2)))))
    } else if string_is(name, "sec") {
        Some(Expr::product(pair(Expr::func("sec", u.deep_copy()), Expr::func("tan", u.deep_copy()))))
    } else if string_is(name, "csc") {
        Some(Expr::product(triple(Expr::integer(-1), Expr::func("csc", u.deep_copy()), Expr::func("cot", u.deep_copy()))))
    } else if string_is(name, "asin") {
        Some(Expr::div_expr(Expr::integer(1), Expr::func("sqrt", Expr::sum(pair(Expr::integer(1), Expr::product(pair(Expr::integer(-1), Expr::pow_static(u.deep_copy(), Expr::integer(2)))))))))
    } else if string_is(name, "acos") {
        Some(Expr::div_expr(Expr::integer(-1), Expr::func("sqrt", Expr::sum(pair(Expr::integer(1), Expr::product(pair(Expr::integer(-1), Expr::pow_static(u.deep_copy(), Expr::integer(2)))))))))
    } else if string_is(name, "atan") {
        Some(Expr::div_expr(Expr::integer(1), Expr::sum(pair(Expr::integer(1), Expr::pow_static(u.deep_copy(), Expr::integer(2))))))
    } else if string_is(name, "acot") {
        Some(Expr::div_expr(Expr::integer(-1), Expr::sum(pair(Expr::integer(1), Expr::pow_static(u.deep_copy(), Expr::integer(2))))))
    } else if string_is(name, "asec") {
        Some(Expr::div_expr(Expr::integer(1), Expr::product(pair(u.deep_copy(), Expr::func("sqrt", Expr::sum(pair(Expr::pow_static(u.deep_copy(), Expr::integer(2)), Expr::integer(-1))))))))
    } else if string_is(name, "acsc") {
        Some(Expr::div_expr(Expr::integer(-1), Expr::product(pair(u.deep_copy(), Expr::func("sqrt", Expr::sum(pair(Expr::pow_static(u.deep_copy(), Expr::integer(2)), Expr::integer(-1))))))))
    } else if string_is(name, "sinh") {
        Some(Expr::func("cosh", u.deep_copy()))
    } else if string_is(name, "cosh") {
        Some(Expr::func("sinh", u.deep_copy()))
    } else if string_is(name, "tanh") {
        Some(Expr::sum(pair(Expr::integer(1), Expr::product(pair(Expr::integer(-1), Expr::pow_static(Expr::func("tanh", u.deep_copy()), Expr::integer(2)))))))
    } else if string_is(name, "coth") {
        Some(Expr::product(pair(Expr::integer(-1), Expr::pow_static(Expr::func("csch", u.deep_copy()), Expr::integer(2)))))
    } else if string_is(name, "sech") {
        Some(Expr::product(triple(Expr::integer(-1), Expr::func("sech", u.deep_copy()), Expr::func("tanh", u.deep_copy()))))
    } else if string_is(name, "csch") {
        Some(Expr::product(triple(Expr::integer(-1), Expr::func("csch", u.deep_copy()), Expr::func("coth", u.deep_copy()))))
    } else if string_is(name, "asinh") {
        Some(Expr::div_expr(Expr::integer(1), Expr::func("sqrt", Expr::sum(pair(Expr::pow_static(u.deep_copy(), Expr::integer(2)), Expr::integer(1))))))
    } else if string_is(name, "acosh") {
        Some(Expr::div_expr(Expr::integer(1), Expr::func("sqrt", Expr::sum(pair(Expr::pow_static(u.deep_copy(), Expr::integer(2)), Expr::integer(-1))))))
    } else if string_is(name, "atanh") {
        Some(Expr::div_expr(Expr::integer(1), Expr::sum(pair(Expr::integer(1), Expr::product(pair(Expr::integer(-1), Expr::pow_static(u.deep_copy(), Expr::integer(2))))))))
    } else if string_is(name, "acoth") {
        Some(Expr::div_expr(Expr::integer(1), Expr::sum(pair(Expr::integer(1), Expr::product(pair(Expr::integer(-1), Expr::pow_static(u.deep_copy(), Expr::integer(2))))))))
    } else if string_is(name, "asech") {
        Some(Expr::div_expr(Expr::integer(-1), Expr::product(pair(u.deep_copy(), Expr::func("sqrt", Expr::sum(pair(Expr::integer(1), Expr::product(pair(Expr::integer(-1), Expr::pow_static(u.deep_copy(), Expr::integer(2)))))))))))
    } else if string_is(name, "acsch") {
        Some(Expr::div_expr(Expr::integer(-1), Expr::product(pair(u.deep_copy(), Expr::func("sqrt", Expr::sum(pair(Expr::integer(1), Expr::pow_static(u.deep_copy(), Expr::integer(2)))))))))
    } else if string_is(name, "ln") {
        Some(Expr::div_expr(Expr::integer(1), u.deep_copy()))
    } else if string_is(name, "log") {
        Some(Expr::div_expr(Expr::integer(1), u.deep_copy()))
    } else if string_is(name, "log10") {
        Some(Expr::div_expr(Expr::integer(1), Expr::product(pair(u.deep_copy(), Expr::func("ln", Expr::integer(10))))))
    } else if string_is(name, "log2") {
        Some(Expr::div_expr(Expr::integer(1), Expr::product(pair(u.deep_copy(), Expr::func("ln", Expr::integer(2))))))
    } else if string_is(name, "sqrt") {
        Some(Expr::div_expr(Expr::integer(1), Expr::product(pair(Expr::integer(2), Expr::func("sqrt", u.deep_copy())))))
    } else if string_is(name, "cbrt") {
        Some(Expr::div_expr(Expr::integer(1), Expr::product(pair(Expr::integer(3), Expr::pow_static(u.deep_copy(), Expr::div_expr(Expr::integer(2), Expr::integer(3)))))))
    } else if string_is(name, "sinc") {
        Some(Expr::div_expr(Expr::sum(pair(Expr::product(pair(Expr::func("cos", u.deep_copy()), u.deep_copy())), Expr::product(pair(Expr::integer(-1), Expr::func("sin", u.deep_copy()))))), Expr::pow_static(u.deep_copy(), Expr::integer(2))))
    } else if string_is(name, "erf") {
        Some(Expr::product(pair(Expr::div_expr(Expr::integer(2), Expr::func("sqrt", Expr::symbol("pi"))), Expr::func("exp", Expr::product(pair(Expr::integer(-1), Expr::pow_static(u.deep_copy(), Expr::integer(2))))))))
    } else if string_is(name, "erfc") {
        Some(Expr::product(pair(Expr::div_expr(Expr::integer(-2), Expr::func("sqrt", Expr::symbol("pi"))), Expr::func("exp", Expr::product(pair(Expr::integer(-1), Expr::pow_static(u.deep_copy(), Expr::integer(2))))))))
    } else if string_is(name, "gamma") {
        Some(Expr::product(pair(Expr::func("gamma", u.deep_copy()), Expr::func("digamma", u.deep_copy()))))
    } else if string_is(name, "digamma") {
        Some(Expr::func("trigamma", u.deep_copy()))
    } else if string_is(name, "trigamma") {
        Some(Expr::func("tetragamma", u.deep_copy()))
    } else if string_is(name, "tetragamma") {
        Some(Expr::func_multi("polygamma", pair(Expr::integer(3), u.deep_copy())))
    } else if string_is(name, "lambertw") {
        Some(Expr::div_expr(Expr::func("lambertw", u.deep_copy()), Expr::product(pair(u.deep_copy(), Expr::sum(pair(Expr::integer(1), Expr::func("lambertw", u.deep_copy())))))))
    } else {
        None
    }
}

/// `d/dx f(n, x)` for a built-in function of an order and an argument, if `name` is one.
#[verifier::rlimit(50)]
pub fn order_outer_exec(name: &String, n: &Expr, x: &Expr) -> (r: Option<Expr>)
    ensures
        opt_term(r) == order_outer(name@, n@, x@),
{
    if string_is(name, "polygamma") {
        Some(Expr::func_multi("polygamma", pair(Expr::sum(pair(n.deep_copy(), Expr::integer(1))), x.deep_copy())))
    } else if string_is(name, "besselj") {
        Some(Expr::product(pair(Expr::div_expr(Expr::integer(1), Expr::integer(2)), Expr::sum(pair(Expr::func_multi("besselj", pair(Expr::sum(pair(n.deep_copy(), Expr::integer(-1))), x.deep_copy())), Expr::product(pair(Expr::integer(-1), Expr::func_multi("besselj", pair(Expr::sum(pair(n.deep_copy(), Expr::integer(1))), x.deep_copy())))))))))
    } else if string_is(name, "bessely") {
        Some(Expr::product(pair(Expr::div_expr(Expr::integer(1), Expr::integer(2)), Expr::sum(pair(Expr::func_multi("bessely", pair(Expr::sum(pair(n.deep_copy(), Expr::integer(-1))), x.deep_copy())), Expr::product(pair(Expr::integer(-1), Expr::func_multi("bessely", pair(Expr::sum(pair(n.deep_copy(), Expr::integer(1))), x.deep_copy())))))))))
    } else if string_is(name, "besseli") {
        Some(Expr::product(pair(Expr::div_expr(Expr::integer(1), Expr::integer(2)), Expr::sum(pair(Expr::func_multi("besseli", pair(Expr::sum(pair(n.deep_copy(), Expr::integer(-1))), x.deep_copy())), Expr::func_multi("besseli", pair(Expr::sum(pair(n.deep_copy(), Expr::integer(1))), x.deep_copy())))))))
    } else if string_is(name, "besselk") {
        Some(Expr::product(pair(Expr::div_expr(Expr::integer(-1), Expr::integer(2)), Expr::sum(pair(Expr::func_multi("besselk", pair(Expr::sum(pair(n.deep_copy(), Expr::integer(-1))), x.deep_copy())), Expr::func_multi("besselk", pair(Expr::sum(pair(n.deep_copy(), Expr::integer(1))), x.deep_copy())))))))
    } else {
        None
    }
}

} // verus!
