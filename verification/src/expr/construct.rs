//! Constructors and queries of expressions.

use vstd::prelude::*;
use crate::number::{Num, int_num, negated};
use crate::text::string_is;
use super::{Expr, ExprKind, Term, terms_of, lemma_terms_of};

verus! {

// ---------------------------------------------------------------------------
// Model-level definitions
// ---------------------------------------------------------------------------

/// `-t`: a literal is negated in place, anything else is multiplied by `-1`.
pub open spec fn neg_term(t: Term) -> Term {
    match t {
        Term::Num(n) => Term::Num(negated(n)),
        _ => Term::Prod(seq![Term::Num(int_num(-1)), t]),
    }
}

/// `a - b`, written as the sum of `a` and `-b`.
pub open spec fn sub_term(a: Term, b: Term) -> Term {
    Term::Sum(seq![a, neg_term(b)])
}

/// Whether `t` is the literal zero.
pub open spec fn is_zero_term(t: Term) -> bool {
    t matches Term::Num(n) && n.mant() == 0
}

/// Whether `t` is the literal one.
pub open spec fn is_one_term(t: Term) -> bool {
    t matches Term::Num(n) && n.mant() == 1 && n.places() == 0
}

/// Whether the variable `v` occurs in `t`.
pub open spec fn mentions(t: Term, v: Seq<char>) -> bool
    decreases t,
{
    match t {
        Term::Num(_) => false,
        Term::Sym(s) => s == v,
        Term::Call(_, args) => mentions_any(args, v),
        Term::Sum(ts) => mentions_any(ts, v),
        Term::Prod(fs) => mentions_any(fs, v),
        Term::Div(a, b) => mentions(*a, v) || mentions(*b, v),
        Term::Pow(a, b) => mentions(*a, v) || mentions(*b, v),
        Term::Deriv(inner, _, _) => mentions(*inner, v),
    }
}

/// Whether `v` occurs in one of the terms.
pub open spec fn mentions_any(s: Seq<Term>, v: Seq<char>) -> bool
    decreases s,
{
    if s.len() == 0 {
        false
    } else {
        mentions_any(s.drop_last(), v) || mentions(s.last(), v)
    }
}

/// `mentions_any` is an existential over the list.
pub proof fn lemma_mentions_any(s: Seq<Term>, v: Seq<char>)
    ensures
        mentions_any(s, v) <==> exists|i: int| 0 <= i < s.len() && #[trigger] mentions(s[i], v),
    decreases s.len(),
{
    if s.len() > 0 {
        lemma_mentions_any(s.drop_last(), v);
        if mentions_any(s, v) && !mentions(s.last(), v) {
            let i = choose|i: int| 0 <= i < s.drop_last().len() && #[trigger] mentions(s.drop_last()[i], v);
            assert(s[i] == s.drop_last()[i]);
        }
        if exists|i: int| 0 <= i < s.len() && #[trigger] mentions(s[i], v) {
            let i = choose|i: int| 0 <= i < s.len() && #[trigger] mentions(s[i], v);
            if i < s.len() - 1 {
                assert(s.drop_last()[i] == s[i]);
            }
        }
    }
}

/// Lists with the same models element by element have the same model.
pub proof fn lemma_terms_of_ext(a: Seq<Expr>, b: Seq<Expr>)
    requires
        a.len() == b.len(),
        forall|i: int| 0 <= i < a.len() ==> #[trigger] a[i].term() == b[i].term(),
    ensures
        terms_of(a) == terms_of(b),
{
    lemma_terms_of(a);
    lemma_terms_of(b);
    assert(terms_of(a) =~= terms_of(b));
}

/// The model of a two-element list.
pub proof fn lemma_terms_of_pair(a: Expr, b: Expr)
    ensures
        terms_of(seq![a, b]) == seq![a.term(), b.term()],
{
    lemma_terms_of(seq![a, b]);
    assert(terms_of(seq![a, b]) =~= seq![a.term(), b.term()]);
}

/// The model of a one-element list.
pub proof fn lemma_terms_of_one(a: Expr)
    ensures
        terms_of(seq![a]) == seq![a.term()],
{
    lemma_terms_of(seq![a]);
    assert(terms_of(seq![a]) =~= seq![a.term()]);
}

// ---------------------------------------------------------------------------
// Constructors
// ---------------------------------------------------------------------------

impl Expr {
    /// The expression with the given top node.
    pub fn new(kind: ExprKind) -> (r: Expr)
        ensures
            r.kind == kind,
    {
        Expr { kind }
    }

    /// A numeric literal.
    pub fn number(n: Num) -> (r: Expr)
        ensures
            r@ == Term::Num(n),
    {
        Expr { kind: ExprKind::Number(n) }
    }

    /// The integer literal `i`.
    pub fn integer(i: i64) -> (r: Expr)
        requires
            i != i64::MIN,
        ensures
            r@ == Term::Num(int_num(i as int)),
    {
        Expr::number(Num::integer(i))
    }

    /// A variable or named constant.
    pub fn symbol(name: &str) -> (r: Expr)
        ensures
            r@ == Term::Sym(name@),
    {
        Expr { kind: ExprKind::Symbol(String::from_str(name)) }
    }

    /// A function of one argument.
    pub fn func(name: &str, arg: Expr) -> (r: Expr)
        ensures
            r@ == Term::Call(name@, seq![arg@]),
    {
        let mut args: Vec<Expr> = Vec::new();
        args.push(arg);
        proof { assert(args@ =~= seq![arg]); lemma_terms_of_one(arg); }
        Expr { kind: ExprKind::FunctionCall { name: String::from_str(name), args } }
    }

    /// A function of several arguments.
    pub fn func_multi(name: &str, args: Vec<Expr>) -> (r: Expr)
        ensures
            r@ == Term::Call(name@, terms_of(args@)),
    {
        Expr { kind: ExprKind::FunctionCall { name: String::from_str(name), args } }
    }

    /// A function of several arguments, named by an owned string.
    pub fn call_named(name: String, args: Vec<Expr>) -> (r: Expr)
        ensures
            r@ == Term::Call(name@, terms_of(args@)),
    {
        Expr { kind: ExprKind::FunctionCall { name, args } }
    }

    /// `a + b`.
    pub fn add_expr(a: Expr, b: Expr) -> (r: Expr)
        ensures
            r@ == Term::Sum(seq![a@, b@]),
    {
        Expr::sum(pair(a, b))
    }

    /// `a * b`.
    pub fn mul_expr(a: Expr, b: Expr) -> (r: Expr)
        ensures
            r@ == Term::Prod(seq![a@, b@]),
    {
        Expr::product(pair(a, b))
    }

    /// `a - b`, the sum of `a` and the negation of `b`.
    pub fn sub_expr(a: Expr, b: Expr) -> (r: Expr)
        ensures
            r@ == sub_term(a@, b@),
    {
        let nb = b.negate();
        Expr::add_expr(a, nb)
    }

    /// `a / b`.
    pub fn div_expr(a: Expr, b: Expr) -> (r: Expr)
        ensures
            r@ == Term::Div(Box::new(a@), Box::new(b@)),
    {
        Expr { kind: ExprKind::Div(Box::new(a), Box::new(b)) }
    }

    /// `base ^ exponent`.
    pub fn pow_static(base: Expr, exponent: Expr) -> (r: Expr)
        ensures
            r@ == Term::Pow(Box::new(base@), Box::new(exponent@)),
    {
        Expr { kind: ExprKind::Pow(Box::new(base), Box::new(exponent)) }
    }

    /// The sum of the terms.
    pub fn sum(terms: Vec<Expr>) -> (r: Expr)
        ensures
            r@ == Term::Sum(terms_of(terms@)),
    {
        Expr { kind: ExprKind::Sum(terms) }
    }

    /// The product of the factors.
    pub fn product(factors: Vec<Expr>) -> (r: Expr)
        ensures
            r@ == Term::Prod(terms_of(factors@)),
    {
        Expr { kind: ExprKind::Product(factors) }
    }

    /// The unevaluated `order`-th derivative of `inner` with respect to `var`.
    pub fn derivative(inner: Expr, var: &str, order: u32) -> (r: Expr)
        ensures
            r@ == Term::Deriv(Box::new(inner@), var@, order as nat),
    {
        Expr { kind: ExprKind::Derivative { inner: Box::new(inner), var: String::from_str(var), order } }
    }

    /// The unevaluated derivative, with the variable given as an owned string.
    pub fn derivative_named(inner: Expr, var: String, order: u32) -> (r: Expr)
        ensures
            r@ == Term::Deriv(Box::new(inner@), var@, order as nat),
    {
        Expr { kind: ExprKind::Derivative { inner: Box::new(inner), var, order } }
    }

    /// `-self`: a literal is negated in place, anything else is multiplied by `-1`.
    pub fn negate(self) -> (r: Expr)
        ensures
            r@ == neg_term(self@),
    {
        match self.kind {
            ExprKind::Number(n) => Expr::number(n.neg()),
            _ => Expr::mul_expr(Expr::integer(-1), self),
        }
    }

    // -----------------------------------------------------------------------
    // Queries
    // -----------------------------------------------------------------------

    /// The value of a numeric literal.
    pub fn as_number(&self) -> (r: Option<Num>)
        ensures
            r == (match self@ {
                Term::Num(n) => Some(n),
                _ => None::<Num>,
            }),
    {
        match &self.kind {
            ExprKind::Number(n) => Some(*n),
            _ => None,
        }
    }

    /// Whether the expression is the literal zero.
    pub fn is_zero_num(&self) -> (r: bool)
        ensures
            r == is_zero_term(self@),
    {
        match &self.kind {
            ExprKind::Number(n) => n.is_zero(),
            _ => false,
        }
    }

    /// Whether the expression is the literal one.
    pub fn is_one_num(&self) -> (r: bool)
        ensures
            r == is_one_term(self@),
    {
        match &self.kind {
            ExprKind::Number(n) => n.is_int(1),
            _ => false,
        }
    }

    /// Whether the variable `var` occurs in the expression.
    #[verifier::loop_isolation(false)]
    pub fn contains_var(&self, var: &str) -> (r: bool)
        ensures
            r == mentions(self@, var@),
        decreases self,
    {
        match &self.kind {
            ExprKind::Number(_) => false,
            ExprKind::Symbol(s) => string_is(s, var),
            ExprKind::FunctionCall { args, .. } => any_contains(args, var),
            ExprKind::Sum(ts) => any_contains(ts, var),
            ExprKind::Product(fs) => any_contains(fs, var),
            ExprKind::Div(a, b) => a.contains_var(var) || b.contains_var(var),
            ExprKind::Pow(a, b) => a.contains_var(var) || b.contains_var(var),
            ExprKind::Derivative { inner, .. } => inner.contains_var(var),
        }
    }

    /// A copy of the expression.
    #[verifier::loop_isolation(false)]
    pub fn deep_copy(&self) -> (r: Expr)
        ensures
            r@ == self@,
        decreases self,
    {
        match &self.kind {
            ExprKind::Number(n) => Expr::number(*n),
            ExprKind::Symbol(s) => Expr { kind: ExprKind::Symbol(s.clone()) },
            ExprKind::FunctionCall { name, args } => {
                let c = copy_list(args);
                Expr { kind: ExprKind::FunctionCall { name: name.clone(), args: c } }
            },
            ExprKind::Sum(ts) => Expr { kind: ExprKind::Sum(copy_list(ts)) },
            ExprKind::Product(fs) => Expr { kind: ExprKind::Product(copy_list(fs)) },
            ExprKind::Div(a, b) => Expr { kind: ExprKind::Div(Box::new(a.deep_copy()), Box::new(b.deep_copy())) },
            ExprKind::Pow(a, b) => Expr { kind: ExprKind::Pow(Box::new(a.deep_copy()), Box::new(b.deep_copy())) },
            ExprKind::Derivative { inner, var, order } => Expr {
                kind: ExprKind::Derivative { inner: Box::new(inner.deep_copy()), var: var.clone(), order: *order },
            },
        }
    }
}

/// The one-element list `[a]`.
pub fn one(a: Expr) -> (r: Vec<Expr>)
    ensures
        r@ == seq![a],
        terms_of(r@) == seq![a@],
{
    let mut v: Vec<Expr> = Vec::new();
    v.push(a);
    proof { assert(v@ =~= seq![a]); lemma_terms_of_one(a); }
    v
}

/// The two-element list `[a, b]`.
pub fn pair(a: Expr, b: Expr) -> (r: Vec<Expr>)
    ensures
        r@ == seq![a, b],
        terms_of(r@) == seq![a@, b@],
{
    let mut v: Vec<Expr> = Vec::new();
    v.push(a);
    v.push(b);
    proof { assert(v@ =~= seq![a, b]); lemma_terms_of_pair(a, b); }
    v
}

/// The three-element list `[a, b, c]`.
pub fn triple(a: Expr, b: Expr, c: Expr) -> (r: Vec<Expr>)
    ensures
        terms_of(r@) == seq![a@, b@, c@],
{
    let mut v: Vec<Expr> = Vec::new();
    v.push(a);
    v.push(b);
    v.push(c);
    proof {
        assert(v@ =~= seq![a, b, c]);
        lemma_terms_of(v@);
        assert(terms_of(v@) =~= seq![a@, b@, c@]);
    }
    v
}

/// The four-element list `[a, b, c, d]`.
pub fn quad(a: Expr, b: Expr, c: Expr, d: Expr) -> (r: Vec<Expr>)
    ensures
        terms_of(r@) == seq![a@, b@, c@, d@],
{
    let mut v: Vec<Expr> = Vec::new();
    v.push(a);
    v.push(b);
    v.push(c);
    v.push(d);
    proof {
        assert(v@ =~= seq![a, b, c, d]);
        lemma_terms_of(v@);
        assert(terms_of(v@) =~= seq![a@, b@, c@, d@]);
    }
    v
}

/// Whether `var` occurs in one of the expressions.
#[verifier::loop_isolation(false)]
fn any_contains(v: &Vec<Expr>, var: &str) -> (r: bool)
    ensures
        r == mentions_any(terms_of(v@), var@),
    decreases v,
{
    proof {
        lemma_terms_of(v@);
        lemma_mentions_any(terms_of(v@), var@);
    }
    let mut i: usize = 0;
    while i < v.len()
        invariant
            i <= v@.len(),
            forall|j: int| 0 <= j < i ==> !mentions(#[trigger] terms_of(v@)[j], var@),
        decreases v.len() - i,
    {
        assert(decreases_to!(v => v@[i as int]));
        if v[i].contains_var(var) {
            assert(mentions(terms_of(v@)[i as int], var@));
            return true;
        }
        i = i + 1;
    }
    false
}

/// A copy of every expression of the list.
#[verifier::loop_isolation(false)]
pub fn copy_list(v: &Vec<Expr>) -> (r: Vec<Expr>)
    ensures
        terms_of(r@) == terms_of(v@),
    decreases v,
{
    let mut out: Vec<Expr> = Vec::new();
    let mut i: usize = 0;
    while i < v.len()
        invariant
            i <= v@.len(),
            out@.len() == i,
            forall|j: int| 0 <= j < i ==> #[trigger] out@[j].term() == v@[j].term(),
        decreases v.len() - i,
    {
        assert(decreases_to!(v => v@[i as int]));
        let c = v[i].deep_copy();
        out.push(c);
        i = i + 1;
    }
    proof { lemma_terms_of_ext(out@, v@); }
    out
}

} // verus!
