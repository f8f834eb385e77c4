//! The differentiation engine.
//!
//! `deriv` states, rule by rule, what the derivative of a model is; `derive`
//! computes it. Trivial factors and terms are dropped as the result is built
//! (`0 + u`, `1 * u`), so that differentiating keeps expressions small.

use vstd::prelude::*;
use crate::number::int_num;
use crate::text::{nat_digits, u64_digits, push_chars, string_is};
use crate::expr::{Expr, ExprKind, Term, terms_of, lemma_terms_of};
use crate::expr::construct::{
    mentions, is_zero_term, is_one_term, neg_term, sub_term, pair, triple, copy_list,
    lemma_terms_of_ext,
};
use super::rules::{unary_outer, order_outer, unary_outer_exec, order_outer_exec, opt_term};

verus! {

// ---------------------------------------------------------------------------
// Specification
// ---------------------------------------------------------------------------

/// The literal zero.
pub open spec fn zero() -> Term {
    Term::Num(int_num(0))
}

/// The literal one.
pub open spec fn unit() -> Term {
    Term::Num(int_num(1))
}

/// `d * p`, with the trivial cases `p = 0` and `p = 1` folded.
pub open spec fn chain(d: Term, p: Term) -> Term {
    if is_zero_term(p) {
        zero()
    } else if is_one_term(p) {
        d
    } else {
        Term::Prod(seq![d, p])
    }
}

/// The sum of the terms: zero for none, the term itself for one.
pub open spec fn collapse(s: Seq<Term>) -> Term {
    if s.len() == 0 {
        zero()
    } else if s.len() == 1 {
        s[0]
    } else {
        Term::Sum(s)
    }
}

/// The terms that are not the literal zero, in order.
pub open spec fn nonzero(s: Seq<Term>) -> Seq<Term>
    decreases s.len(),
{
    if s.len() == 0 {
        s
    } else {
        let r = nonzero(s.drop_last());
        if is_zero_term(s.last()) { r } else { r.push(s.last()) }
    }
}

/// The name `arg<i>` of the `i`-th argument slot of a function.
pub open spec fn arg_name(i: nat) -> Seq<char> {
    seq!['a', 'r', 'g'] + nat_digits(i)
}

/// The unevaluated partial derivative of `name(args)` in its `i`-th argument.
pub open spec fn partial_term(name: Seq<char>, args: Seq<Term>, i: nat) -> Term {
    Term::Deriv(Box::new(Term::Call(name, args)), arg_name(i), 1)
}

/// Chain-rule terms of an unknown function over its first `k` arguments.
pub open spec fn partial_terms(name: Seq<char>, args: Seq<Term>, ps: Seq<Term>, k: int) -> Seq<Term>
    decreases k,
{
    if k <= 0 {
        Seq::empty()
    } else {
        let prev = partial_terms(name, args, ps, k - 1);
        if is_zero_term(ps[k - 1]) {
            prev
        } else {
            prev.push(Term::Prod(seq![partial_term(name, args, (k - 1) as nat), ps[k - 1]]))
        }
    }
}

/// `B(a, b) * (digamma(s) - digamma(a + b)) * p`: one term of the derivative of `beta`.
pub open spec fn beta_term(a: Term, b: Term, s: Term, p: Term) -> Term {
    Term::Prod(seq![
        Term::Call("beta"@, seq![a, b]),
        sub_term(Term::Call("digamma"@, seq![s]), Term::Call("digamma"@, seq![Term::Sum(seq![a, b])])),
        p,
    ])
}

/// The terms of the derivative of `beta(a, b)`.
pub open spec fn beta_terms(a: Term, b: Term, pa: Term, pb: Term) -> Seq<Term> {
    let first: Seq<Term> = if is_zero_term(pa) { Seq::empty() } else { seq![beta_term(a, b, a, pa)] };
    if is_zero_term(pb) { first } else { first.push(beta_term(a, b, b, pb)) }
}

/// The derivative of `name(args)`, given the derivatives `ps` of the arguments.
pub open spec fn call_deriv(name: Seq<char>, args: Seq<Term>, ps: Seq<Term>) -> Term {
    if args.len() == 0 {
        zero()
    } else if name == "exp"@ && args.len() == 1 {
        Term::Prod(seq![Term::Call("exp"@, seq![args[0]]), ps[0]])
    } else if args.len() == 1 && unary_outer(name, args[0]) is Some {
        chain(unary_outer(name, args[0])->0, ps[0])
    } else if args.len() == 2 && is_zero_term(ps[0]) && order_outer(name, args[0], args[1]) is Some {
        chain(order_outer(name, args[0], args[1])->0, ps[1])
    } else if args.len() == 2 && name == "beta"@ {
        collapse(beta_terms(args[0], args[1], ps[0], ps[1]))
    } else {
        collapse(partial_terms(name, args, ps, args.len() as int))
    }
}

/// The product-rule term of factor `i`: the other factors times its derivative.
pub open spec fn factor_term(fs: Seq<Term>, ps: Seq<Term>, i: int) -> Term {
    let others = fs.remove(i);
    if others.len() == 0 {
        ps[i]
    } else if is_one_term(ps[i]) {
        Term::Prod(others)
    } else {
        Term::Prod(others.push(ps[i]))
    }
}

/// Product-rule terms over the first `k` factors; literal factors and factors
/// with a zero derivative contribute nothing.
pub open spec fn factor_terms(fs: Seq<Term>, ps: Seq<Term>, k: int) -> Seq<Term>
    decreases k,
{
    if k <= 0 {
        Seq::empty()
    } else {
        let prev = factor_terms(fs, ps, k - 1);
        if fs[k - 1] is Num || is_zero_term(ps[k - 1]) {
            prev
        } else {
            prev.push(factor_term(fs, ps, k - 1))
        }
    }
}

/// `f'/f` for the first `k` factors whose derivative is not zero.
pub open spec fn log_terms(fs: Seq<Term>, ps: Seq<Term>, k: int) -> Seq<Term>
    decreases k,
{
    if k <= 0 {
        Seq::empty()
    } else {
        let prev = log_terms(fs, ps, k - 1);
        if is_zero_term(ps[k - 1]) {
            prev
        } else {
            prev.push(Term::Div(Box::new(ps[k - 1]), Box::new(fs[k - 1])))
        }
    }
}

/// Largest product differentiated with the product rule; longer products use
/// the logarithmic derivative `P * sum(f'/f)`.
pub const PRODUCT_RULE_LIMIT: usize = 10;

/// The derivative of the product of `fs`, given their derivatives `ps`.
pub open spec fn prod_deriv(fs: Seq<Term>, ps: Seq<Term>) -> Term {
    if fs.len() == 0 {
        zero()
    } else if fs.len() == 1 {
        ps[0]
    } else if fs.len() > PRODUCT_RULE_LIMIT {
        let l = log_terms(fs, ps, fs.len() as int);
        if l.len() == 0 { zero() } else { Term::Prod(seq![Term::Prod(fs), Term::Sum(l)]) }
    } else {
        collapse(factor_terms(fs, ps, fs.len() as int))
    }
}

/// `w^2`.
pub open spec fn square(w: Term) -> Term {
    Term::Pow(Box::new(w), Box::new(Term::Num(int_num(2))))
}

/// The quotient rule, given the derivatives `pu`, `pw` of `u` and `w`.
pub open spec fn div_deriv(u: Term, w: Term, pu: Term, pw: Term) -> Term {
    if let Term::Num(n) = u {
        if is_zero_term(pw) {
            zero()
        } else {
            Term::Div(Box::new(Term::Prod(seq![Term::Num(crate::number::negated(n)), pw])), Box::new(square(w)))
        }
    } else if w is Num {
        Term::Div(Box::new(pu), Box::new(w))
    } else if is_zero_term(pu) && is_zero_term(pw) {
        zero()
    } else if is_zero_term(pw) {
        Term::Div(Box::new(pu), Box::new(w))
    } else if is_zero_term(pu) {
        Term::Div(Box::new(neg_term(Term::Prod(seq![u, pw]))), Box::new(square(w)))
    } else {
        Term::Div(
            Box::new(sub_term(Term::Prod(seq![pu, w]), Term::Prod(seq![u, pw]))),
            Box::new(square(w)),
        )
    }
}

/// `ln(u)`.
pub open spec fn ln_of(u: Term) -> Term {
    Term::Call("ln"@, seq![u])
}

/// The derivative of `u^w`, where `cu`, `cw` tell whether the variable occurs in
/// `u` and `w`, and `pu`, `pw` are their derivatives.
pub open spec fn pow_deriv(u: Term, w: Term, cu: bool, cw: bool, pu: Term, pw: Term) -> Term {
    let p = Term::Pow(Box::new(u), Box::new(w));
    if !cu && !cw {
        zero()
    } else if !cw {
        if is_zero_term(w) || is_zero_term(pu) {
            zero()
        } else {
            let lowered = Term::Pow(Box::new(u), Box::new(sub_term(w, unit())));
            if is_one_term(pu) { Term::Prod(seq![w, lowered]) } else { Term::Prod(seq![w, lowered, pu]) }
        }
    } else if !cu {
        if is_zero_term(pw) {
            zero()
        } else if is_one_term(pw) {
            Term::Prod(seq![p, ln_of(u)])
        } else {
            Term::Prod(seq![p, ln_of(u), pw])
        }
    } else {
        let t1 = if is_zero_term(pw) { zero() } else if is_one_term(pw) { ln_of(u) } else { Term::Prod(seq![pw, ln_of(u)]) };
        let t2 = if is_zero_term(pu) { zero() } else { Term::Prod(seq![w, Term::Div(Box::new(pu), Box::new(u))]) };
        if is_zero_term(t1) && is_zero_term(t2) {
            zero()
        } else {
            let s = if is_zero_term(t1) { t2 } else if is_zero_term(t2) { t1 } else { Term::Sum(seq![t1, t2]) };
            if is_one_term(s) { p } else { Term::Prod(seq![p, s]) }
        }
    }
}

/// The derivative of `t` with respect to the variable `v`.
pub open spec fn deriv(t: Term, v: Seq<char>) -> Term
    decreases t,
{
    match t {
        Term::Num(_) => zero(),
        Term::Sym(s) => if s == v { unit() } else { zero() },
        Term::Call(name, args) => call_deriv(name, args, derivs(args, v)),
        Term::Sum(ts) => collapse(nonzero(derivs(ts, v))),
        Term::Prod(fs) => prod_deriv(fs, derivs(fs, v)),
        Term::Div(u, w) => div_deriv(*u, *w, deriv(*u, v), deriv(*w, v)),
        Term::Pow(u, w) => pow_deriv(*u, *w, mentions(*u, v), mentions(*w, v), deriv(*u, v), deriv(*w, v)),
        Term::Deriv(inner, dv, order) => {
            if dv == v {
                Term::Deriv(inner, dv, order + 1)
            } else if !mentions(*inner, v) {
                zero()
            } else {
                Term::Deriv(Box::new(Term::Deriv(inner, dv, order)), v, 1)
            }
        },
    }
}

/// The derivatives of the terms, in order.
pub open spec fn derivs(s: Seq<Term>, v: Seq<char>) -> Seq<Term>
    decreases s,
{
    if s.len() == 0 {
        Seq::empty()
    } else {
        derivs(s.drop_last(), v).push(deriv(s.last(), v))
    }
}

/// Whether differentiating `t` in `v` stays within the range of derivative
/// orders: no unevaluated derivative in `v` that it reaches is of the largest order.
pub open spec fn derivable(t: Term, v: Seq<char>) -> bool
    decreases t,
{
    match t {
        Term::Num(_) => true,
        Term::Sym(_) => true,
        Term::Call(_, args) => all_derivable(args, v),
        Term::Sum(ts) => all_derivable(ts, v),
        Term::Prod(fs) => all_derivable(fs, v),
        Term::Div(u, w) => derivable(*u, v) && derivable(*w, v),
        Term::Pow(u, w) => {
            let cu = mentions(*u, v);
            let cw = mentions(*w, v);
            if !cu && !cw {
                true
            } else if !cw {
                is_zero_term(*w) || derivable(*u, v)
            } else if !cu {
                derivable(*w, v)
            } else {
                derivable(*u, v) && derivable(*w, v)
            }
        },
        Term::Deriv(_, dv, order) => dv == v ==> order < u32::MAX,
    }
}

/// Whether every term of the list is `derivable`.
pub open spec fn all_derivable(s: Seq<Term>, v: Seq<char>) -> bool
    decreases s,
{
    if s.len() == 0 {
        true
    } else {
        all_derivable(s.drop_last(), v) && derivable(s.last(), v)
    }
}

// ---------------------------------------------------------------------------
// Lemmas on the list forms
// ---------------------------------------------------------------------------

/// `derivs` maps `deriv` over the list, and `all_derivable` holds of every element.
pub proof fn lemma_derivs(s: Seq<Term>, v: Seq<char>)
    ensures
        derivs(s, v).len() == s.len(),
        forall|i: int| 0 <= i < s.len() ==> #[trigger] derivs(s, v)[i] == deriv(s[i], v),
        all_derivable(s, v) <==> forall|i: int| 0 <= i < s.len() ==> #[trigger] derivable(s[i], v),
    decreases s.len(),
{
    if s.len() > 0 {
        lemma_derivs(s.drop_last(), v);
        if all_derivable(s, v) {
            assert forall|i: int| 0 <= i < s.len() implies #[trigger] derivable(s[i], v) by {
                if i < s.len() - 1 {
                    assert(s.drop_last()[i] == s[i]);
                }
            }
        }
        if forall|i: int| 0 <= i < s.len() ==> #[trigger] derivable(s[i], v) {
            assert forall|i: int| 0 <= i < s.drop_last().len() implies #[trigger] derivable(s.drop_last()[i], v) by {
                assert(s.drop_last()[i] == s[i]);
            }
            assert(derivable(s[s.len() - 1], v));
        }
        assert forall|i: int| 0 <= i < s.len() implies #[trigger] derivs(s, v)[i] == deriv(s[i], v) by {
            if i < s.len() - 1 {
                assert(s.drop_last()[i] == s[i]);
            }
        }
    }
}

// ---------------------------------------------------------------------------
// Implementation
// ---------------------------------------------------------------------------

/// `d * p`, with `p = 0` and `p = 1` folded.
fn chain_exec(d: Expr, p: Expr) -> (r: Expr)
    ensures
        r@ == chain(d@, p@),
{
    if p.is_zero_num() {
        Expr::integer(0)
    } else if p.is_one_num() {
        d
    } else {
        Expr::mul_expr(d, p)
    }
}

/// The sum of the terms: zero for none, the term itself for one.
fn collapse_exec(v: Vec<Expr>) -> (r: Expr)
    ensures
        r@ == collapse(terms_of(v@)),
{
    proof { lemma_terms_of(v@); }
    let mut v = v;
    if v.len() == 0 {
        Expr::integer(0)
    } else if v.len() == 1 {
        v.remove(0)
    } else {
        Expr::sum(v)
    }
}

/// The label `arg<i>`.
fn arg_label(i: usize) -> (r: String)
    ensures
        r@ == arg_name(i as nat),
{
    let mut s = String::from_str("arg");
    proof { reveal_strlit("arg"); }
    let d = u64_digits(i as u64);
    push_chars(&mut s, &d);
    assert(s@ =~= arg_name(i as nat));
    s
}

/// A copy of every expression of `v` but the one at `i`.
fn copy_except(v: &Vec<Expr>, i: usize) -> (r: Vec<Expr>)
    requires
        i < v@.len(),
    ensures
        terms_of(r@) == terms_of(v@).remove(i as int),
{
    let ghost tv = terms_of(v@);
    proof { lemma_terms_of(v@); }
    let mut out: Vec<Expr> = Vec::new();
    let mut j: usize = 0;
    while j < v.len()
        invariant
            j <= v@.len(),
            i < v@.len(),
            tv == terms_of(v@),
            tv.len() == v@.len(),
            forall|k: int| 0 <= k < v@.len() ==> #[trigger] tv[k] == v@[k].term(),
            out@.len() == (if j <= i { j as int } else { j - 1 }),
            forall|k: int| 0 <= k < out@.len() ==> #[trigger] out@[k].term() == tv.remove(i as int)[k],
        decreases v.len() - j,
    {
        if j != i {
            let c = v[j].deep_copy();
            out.push(c);
        }
        j = j + 1;
    }
    proof {
        lemma_terms_of(out@);
        assert(terms_of(out@) =~= tv.remove(i as int));
    }
    out
}

impl Expr {
    /// The unevaluated partial derivative of `name(args)` in its argument `arg_index`,
    /// written as a derivative in the variable `arg<arg_index>`.
    pub fn symbolic_partial(name: &String, args: &Vec<Expr>, arg_index: usize) -> (r: Expr)
        ensures
            r@ == partial_term(name@, terms_of(args@), arg_index as nat),
    {
        let inner = Expr::call_named(name.clone(), copy_list(args));
        Expr::derivative_named(inner, arg_label(arg_index), 1)
    }

    /// The derivative of the expression with respect to `var`.
    pub fn derive(&self, var: &str) -> (r: Expr)
        requires
            derivable(self@, var@),
        ensures
            r@ == deriv(self@, var@),
    {
        self.derive_impl(var)
    }

    /// The derivative with respect to `var`, with no further rewriting.
    pub fn derive_raw(&self, var: &str) -> (r: Expr)
        requires
            derivable(self@, var@),
        ensures
            r@ == deriv(self@, var@),
    {
        self.derive(var)
    }

    /// The rules of differentiation, by the kind of the top node.
    pub fn derive_impl(&self, var: &str) -> (r: Expr)
        requires
            derivable(self@, var@),
        ensures
            r@ == deriv(self@, var@),
        decreases self,
    {
        match &self.kind {
            ExprKind::Number(_) => Expr::integer(0),
            ExprKind::Symbol(s) => {
                if string_is(s, var) { Expr::integer(1) } else { Expr::integer(0) }
            },
            ExprKind::FunctionCall { name, args } => {
                proof {
                    lemma_terms_of(args@);
                    lemma_derivs(terms_of(args@), var@);
                }
                if args.len() == 0 {
                    return Expr::integer(0);
                }
                if string_is(name, "exp") && args.len() == 1 {
                    proof {
                        lemma_terms_of(args@);
                        lemma_derivs(terms_of(args@), var@);
                    }
                    assert(decreases_to!(self => args@[0]));
                    let p = args[0].derive_impl(var);
                    let e = Expr::func("exp", args[0].deep_copy());
                    return Expr::mul_expr(e, p);
                }
                let ps = derive_list(args, var);
                derive_call(name, args, ps)
            },
            ExprKind::Sum(ts) => {
                let ps = derive_list(ts, var);
                let kept = drop_zeros(&ps);
                collapse_exec(kept)
            },
            ExprKind::Product(fs) => {
                proof {
                    lemma_terms_of(fs@);
                    lemma_derivs(terms_of(fs@), var@);
                }
                let ps = derive_list(fs, var);
                derive_product(fs, ps)
            },
            ExprKind::Div(u, w) => {
                if let ExprKind::Number(n) = &u.kind {
                    assert(u.term() == Term::Num(*n));
                    assert(self@ == Term::Div(Box::new(u.term()), Box::new(w.term())));
                    assert(deriv(self@, var@) == div_deriv(u.term(), w.term(), deriv(u.term(), var@), deriv(w.term(), var@)));
                    let pw = w.derive_impl(var);
                    if pw.is_zero_num() {
                        return Expr::integer(0);
                    }
                    let num = Expr::product(pair(Expr::number(n.neg()), pw));
                    let sq = Expr::pow_static(w.deep_copy(), Expr::integer(2));
                    return Expr::div_expr(num, sq);
                }
                if let ExprKind::Number(_) = &w.kind {
                    let pu = u.derive_impl(var);
                    return Expr::div_expr(pu, w.deep_copy());
                }
                let pu = u.derive_impl(var);
                let pw = w.derive_impl(var);
                let uz = pu.is_zero_num();
                let wz = pw.is_zero_num();
                if uz && wz {
                    Expr::integer(0)
                } else if wz {
                    Expr::div_expr(pu, w.deep_copy())
                } else if uz {
                    let t = Expr::product(pair(u.deep_copy(), pw)).negate();
                    Expr::div_expr(t, Expr::pow_static(w.deep_copy(), Expr::integer(2)))
                } else {
                    let a = Expr::product(pair(pu, w.deep_copy()));
                    let b = Expr::product(pair(u.deep_copy(), pw));
                    Expr::div_expr(Expr::sub_expr(a, b), Expr::pow_static(w.deep_copy(), Expr::integer(2)))
                }
            },
            ExprKind::Pow(u, w) => {
            let cu = u.contains_var(var);
            let cw = w.contains_var(var);
            if !cu && !cw {
                Expr::integer(0)
            } else if !cw {
                if w.is_zero_num() {
                    return Expr::integer(0);
                }
                let pu = u.derive_impl(var);
                if pu.is_zero_num() {
                    Expr::integer(0)
                } else {
                    let lowered = Expr::pow_static(u.deep_copy(), Expr::sub_expr(w.deep_copy(), Expr::integer(1)));
                    if pu.is_one_num() {
                        Expr::mul_expr(w.deep_copy(), lowered)
                    } else {
                        Expr::product(triple(w.deep_copy(), lowered, pu))
                    }
                }
            } else if !cu {
                let pw = w.derive_impl(var);
                if pw.is_zero_num() {
                    Expr::integer(0)
                } else {
                    let p = Expr::pow_static(u.deep_copy(), w.deep_copy());
                    let l = Expr::func("ln", u.deep_copy());
                    if pw.is_one_num() {
                        Expr::mul_expr(p, l)
                    } else {
                        Expr::product(triple(p, l, pw))
                    }
                }
            } else {
                let pu = u.derive_impl(var);
                let pw = w.derive_impl(var);
                let t1 = if pw.is_zero_num() {
                    Expr::integer(0)
                } else if pw.is_one_num() {
                    Expr::func("ln", u.deep_copy())
                } else {
                    Expr::mul_expr(pw, Expr::func("ln", u.deep_copy()))
                };
                let t2 = if pu.is_zero_num() {
                    Expr::integer(0)
                } else {
                    Expr::mul_expr(w.deep_copy(), Expr::div_expr(pu, u.deep_copy()))
                };
                let z1 = t1.is_zero_num();
                let z2 = t2.is_zero_num();
                if z1 && z2 {
                    return Expr::integer(0);
                }
                let s = if z1 { t2 } else if z2 { t1 } else { Expr::add_expr(t1, t2) };
                let p = Expr::pow_static(u.deep_copy(), w.deep_copy());
                if s.is_one_num() { p } else { Expr::mul_expr(p, s) }
            }
            },
            ExprKind::Derivative { inner, var: dv, order } => {
                if string_is(dv, var) {
                    Expr::derivative_named(inner.deep_copy(), dv.clone(), *order + 1)
                } else if !inner.contains_var(var) {
                    Expr::integer(0)
                } else {
                    let d = Expr::derivative_named(inner.deep_copy(), dv.clone(), *order);
                    Expr::derivative(d, var, 1)
                }
            },
        }
    }
}

/// The derivatives of the expressions of `v`, in order.
#[verifier::loop_isolation(false)]
fn derive_list(v: &Vec<Expr>, var: &str) -> (r: Vec<Expr>)
    requires
        all_derivable(terms_of(v@), var@),
    ensures
        terms_of(r@) == derivs(terms_of(v@), var@),
    decreases v,
{
    proof {
        lemma_terms_of(v@);
        lemma_derivs(terms_of(v@), var@);
    }
    let mut out: Vec<Expr> = Vec::new();
    let mut i: usize = 0;
    while i < v.len()
        invariant
            i <= v@.len(),
            out@.len() == i,
            forall|j: int| 0 <= j < i ==> #[trigger] out@[j].term() == derivs(terms_of(v@), var@)[j],
        decreases v.len() - i,
    {
        assert(decreases_to!(v => v@[i as int]));
        assert(derivable(terms_of(v@)[i as int], var@));
        let d = v[i].derive_impl(var);
        out.push(d);
        i = i + 1;
    }
    proof {
        lemma_terms_of(out@);
        assert(terms_of(out@) =~= derivs(terms_of(v@), var@));
    }
    out
}

/// The expressions of `v` that are not the literal zero.
fn drop_zeros(v: &Vec<Expr>) -> (r: Vec<Expr>)
    ensures
        terms_of(r@) == nonzero(terms_of(v@)),
{
    proof { lemma_terms_of(v@); }
    let ghost tv = terms_of(v@);
    let mut out: Vec<Expr> = Vec::new();
    let mut i: usize = 0;
    assert(tv.subrange(0, 0) =~= Seq::<Term>::empty());
    while i < v.len()
        invariant
            i <= v@.len(),
            tv == terms_of(v@),
            tv.len() == v@.len(),
            forall|k: int| 0 <= k < v@.len() ==> #[trigger] tv[k] == v@[k].term(),
            terms_of(out@) == nonzero(tv.subrange(0, i as int)),
        decreases v.len() - i,
    {
        proof {
            assert(tv.subrange(0, i + 1).drop_last() =~= tv.subrange(0, i as int));
        }
        if !v[i].is_zero_num() {
            let c = v[i].deep_copy();
            let ghost old_out = out@;
            out.push(c);
            proof { assert(out@.drop_last() =~= old_out); }
        }
        i = i + 1;
    }
    assert(tv.subrange(0, tv.len() as int) =~= tv);
    out
}

/// The derivative of `name(args)`, given the derivatives `ps` of the arguments.
fn derive_call(name: &String, args: &Vec<Expr>, ps: Vec<Expr>) -> (r: Expr)
    requires
        args@.len() > 0,
        terms_of(ps@).len() == args@.len(),
        !(name@ == "exp"@ && args@.len() == 1),
    ensures
        r@ == call_deriv(name@, terms_of(args@), terms_of(ps@)),
{
    proof {
        lemma_terms_of(args@);
        lemma_terms_of(ps@);
    }
    let ghost ta = terms_of(args@);
    let ghost tp = terms_of(ps@);
    if args.len() == 1 {
        let d = unary_outer_exec(name, &args[0]);
        if let Some(d) = d {
            let mut ps = ps;
            let p = ps.remove(0);
            return chain_exec(d, p);
        }
    }
    if args.len() == 2 && ps[0].is_zero_num() {
        let d = order_outer_exec(name, &args[0], &args[1]);
        if let Some(d) = d {
            let mut ps = ps;
            let p = ps.remove(1);
            return chain_exec(d, p);
        }
    }
    if args.len() == 2 && string_is(name, "beta") {
        let mut terms: Vec<Expr> = Vec::new();
        if !ps[0].is_zero_num() {
            terms.push(beta_exec(&args[0], &args[1], &args[0], ps[0].deep_copy()));
        }
        if !ps[1].is_zero_num() {
            terms.push(beta_exec(&args[0], &args[1], &args[1], ps[1].deep_copy()));
        }
        proof {
            lemma_terms_of(terms@);
            assert(terms_of(terms@) =~= beta_terms(ta[0], ta[1], tp[0], tp[1]));
        }
        return collapse_exec(terms);
    }
    let mut terms: Vec<Expr> = Vec::new();
    let mut i: usize = 0;
    while i < args.len()
        invariant
            i <= args@.len(),
            ta == terms_of(args@),
            tp == terms_of(ps@),
            tp.len() == ta.len(),
            ta.len() == args@.len(),
            ps@.len() == args@.len(),
            forall|k: int| 0 <= k < ps@.len() ==> #[trigger] tp[k] == ps@[k].term(),
            terms_of(terms@) == partial_terms(name@, ta, tp, i as int),
        decreases args.len() - i,
    {
        if !ps[i].is_zero_num() {
            let part = Expr::symbolic_partial(name, args, i);
            let t = Expr::product(pair(part, ps[i].deep_copy()));
            let ghost old_terms = terms@;
            terms.push(t);
            proof { assert(terms@.drop_last() =~= old_terms); }
        }
        i = i + 1;
    }
    collapse_exec(terms)
}

/// `B(a, b) * (digamma(s) - digamma(a + b)) * p`.
fn beta_exec(a: &Expr, b: &Expr, s: &Expr, p: Expr) -> (r: Expr)
    ensures
        r@ == beta_term(a@, b@, s@, p@),
{
    let bt = Expr::func_multi("beta", pair(a.deep_copy(), b.deep_copy()));
    let ds = Expr::func("digamma", s.deep_copy());
    let dab = Expr::func("digamma", Expr::sum(pair(a.deep_copy(), b.deep_copy())));
    Expr::product(triple(bt, Expr::sub_expr(ds, dab), p))
}

/// The derivative of the product of `fs`, given their derivatives `ps`.
fn derive_product(fs: &Vec<Expr>, ps: Vec<Expr>) -> (r: Expr)
    requires
        terms_of(ps@).len() == fs@.len(),
    ensures
        r@ == prod_deriv(terms_of(fs@), terms_of(ps@)),
{
    proof {
        lemma_terms_of(fs@);
        lemma_terms_of(ps@);
    }
    let ghost tf = terms_of(fs@);
    let ghost tp = terms_of(ps@);
    let n = fs.len();
    if n == 0 {
        return Expr::integer(0);
    }
    if n == 1 {
        let mut ps = ps;
        return ps.remove(0);
    }
    if n > PRODUCT_RULE_LIMIT {
        let mut logs: Vec<Expr> = Vec::new();
        let mut i: usize = 0;
        while i < n
            invariant
                i <= n,
                n == fs@.len(),
                tf == terms_of(fs@),
                tp == terms_of(ps@),
                tp.len() == n,
                ps@.len() == n,
                forall|k: int| 0 <= k < n ==> #[trigger] tp[k] == ps@[k].term(),
                forall|k: int| 0 <= k < n ==> #[trigger] tf[k] == fs@[k].term(),
                terms_of(logs@) == log_terms(tf, tp, i as int),
            decreases n - i,
        {
            if !ps[i].is_zero_num() {
                let q = Expr::div_expr(ps[i].deep_copy(), fs[i].deep_copy());
                let ghost old_logs = logs@;
                logs.push(q);
                proof { assert(logs@.drop_last() =~= old_logs); }
            }
            i = i + 1;
        }
        if logs.len() == 0 {
            proof { lemma_terms_of(logs@); }
            return Expr::integer(0);
        }
        proof { lemma_terms_of(logs@); }
        let whole = Expr::product(copy_list(fs));
        return Expr::mul_expr(whole, Expr::sum(logs));
    }
    let mut terms: Vec<Expr> = Vec::new();
    let mut i: usize = 0;
    while i < n
        invariant
            i <= n,
            2 <= n,
            n == fs@.len(),
            tf == terms_of(fs@),
            tp == terms_of(ps@),
            tp.len() == n,
            tf.len() == n,
            ps@.len() == n,
            forall|k: int| 0 <= k < n ==> #[trigger] tp[k] == ps@[k].term(),
            forall|k: int| 0 <= k < n ==> #[trigger] tf[k] == fs@[k].term(),
            terms_of(terms@) == factor_terms(tf, tp, i as int),
        decreases n - i,
    {
        let is_lit = match &fs[i].kind {
            ExprKind::Number(_) => true,
            _ => false,
        };
        if !is_lit && !ps[i].is_zero_num() {
            let others = copy_except(fs, i);
            proof {
                tf.remove_ensures(i as int);
                lemma_terms_of(others@);
            }
            let p = ps[i].deep_copy();
            let t = if p.is_one_num() {
                Expr::product(others)
            } else {
                let mut o = others;
                let ghost before = o@;
                o.push(p);
                proof {
                    lemma_terms_of(o@);
                    assert(terms_of(o@) =~= terms_of(before).push(p@));
                }
                Expr::product(o)
            };
            let ghost old_terms = terms@;
            terms.push(t);
            proof { assert(terms@.drop_last() =~= old_terms); }
        }
        i = i + 1;
    }
    collapse_exec(terms)
}


// ---------------------------------------------------------------------------
// Laws
// ---------------------------------------------------------------------------

/// Differentiating an unevaluated derivative in its own variable raises its
/// order by one, each time.
pub proof fn law_derivative_order_increments(inner: Term, v: Seq<char>, n: nat)
    ensures
        deriv(Term::Deriv(Box::new(inner), v, n), v) == Term::Deriv(Box::new(inner), v, n + 1),
        deriv(deriv(Term::Deriv(Box::new(inner), v, n), v), v) == Term::Deriv(Box::new(inner), v, n + 2),
{
}

/// `nonzero` keeps exactly the terms that are not the literal zero.
pub proof fn lemma_nonzero(s: Seq<Term>)
    ensures
        forall|i: int| 0 <= i < nonzero(s).len() ==> !is_zero_term(#[trigger] nonzero(s)[i]),
        nonzero(s).len() <= s.len(),
    decreases s.len(),
{
    if s.len() > 0 {
        lemma_nonzero(s.drop_last());
    }
}

/// The derivative of a sum keeps no zero term: with no non-zero derivative
/// among its terms it is zero, with one it is that derivative, and otherwise it
/// is the sum of the non-zero derivatives alone.
pub proof fn law_sum_derivative_has_no_zero_terms(ts: Seq<Term>, v: Seq<char>)
    ensures
        nonzero(derivs(ts, v)).len() == 0 ==> deriv(Term::Sum(ts), v) == zero(),
        nonzero(derivs(ts, v)).len() == 1 ==> !is_zero_term(deriv(Term::Sum(ts), v)),
        nonzero(derivs(ts, v)).len() >= 2 ==> (deriv(Term::Sum(ts), v) matches Term::Sum(s)
            && s.len() >= 2 && forall|i: int| 0 <= i < s.len() ==> !is_zero_term(#[trigger] s[i])),
{
    lemma_nonzero(derivs(ts, v));
}

/// A literal differentiates to zero, and the variable itself to one.
pub proof fn law_literal_and_variable(n: crate::number::Num, v: Seq<char>)
    ensures
        deriv(Term::Num(n), v) == zero(),
        deriv(Term::Sym(v), v) == unit(),
{
}

} // verus!
