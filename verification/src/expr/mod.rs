//! Expression trees with n-ary sums and products.
//!
//! An `Expr` is modelled by a `Term`, a mathematical tree of the same shape
//! in which names are character sequences and child lists are sequences.
//! Every constructor and query states its result over that model.

pub mod construct;
pub mod show;
pub mod functions;
pub mod of_symbol;

use vstd::prelude::*;
use crate::number::Num;

verus! {

/// The model of an expression tree.
pub enum Term {
    Num(Num),
    Sym(Seq<char>),
    Call(Seq<char>, Seq<Term>),
    Sum(Seq<Term>),
    Prod(Seq<Term>),
    Div(Box<Term>, Box<Term>),
    Pow(Box<Term>, Box<Term>),
    Deriv(Box<Term>, Seq<char>, nat),
}

/// The node kinds of an expression.
#[derive(Debug)]
pub enum ExprKind {
    /// A numeric literal.
    Number(Num),
    /// A variable or named constant.
    Symbol(String),
    /// A function applied to arguments.
    FunctionCall { name: String, args: Vec<Expr> },
    /// The sum of the terms.
    Sum(Vec<Expr>),
    /// The product of the factors.
    Product(Vec<Expr>),
    /// A quotient.
    Div(Box<Expr>, Box<Expr>),
    /// A power.
    Pow(Box<Expr>, Box<Expr>),
    /// The `order`-th derivative of `inner` with respect to `var`, left unevaluated.
    Derivative { inner: Box<Expr>, var: String, order: u32 },
}

/// A symbolic expression.
#[derive(Debug)]
pub struct Expr {
    pub kind: ExprKind,
}

/// The model of a list of expressions.
pub open spec fn terms_of(s: Seq<Expr>) -> Seq<Term>
    decreases s,
{
    if s.len() == 0 {
        Seq::empty()
    } else {
        terms_of(s.drop_last()).push(s.last().term())
    }
}

impl Expr {
    /// The model of the expression.
    pub open spec fn term(self) -> Term
        decreases self,
    {
        match self.kind {
            ExprKind::Number(n) => Term::Num(n),
            ExprKind::Symbol(s) => Term::Sym(s@),
            ExprKind::FunctionCall { name, args } => Term::Call(name@, terms_of(args@)),
            ExprKind::Sum(ts) => Term::Sum(terms_of(ts@)),
            ExprKind::Product(fs) => Term::Prod(terms_of(fs@)),
            ExprKind::Div(a, b) => Term::Div(Box::new(a.term()), Box::new(b.term())),
            ExprKind::Pow(a, b) => Term::Pow(Box::new(a.term()), Box::new(b.term())),
            ExprKind::Derivative { inner, var, order } => Term::Deriv(Box::new(inner.term()), var@, order as nat),
        }
    }
}

impl View for Expr {
    type V = Term;

    open spec fn view(&self) -> Term {
        self.term()
    }
}

/// The model of a list keeps its length and maps each element.
pub proof fn lemma_terms_of(s: Seq<Expr>)
    ensures
        terms_of(s).len() == s.len(),
        forall|i: int| 0 <= i < s.len() ==> #[trigger] terms_of(s)[i] == s[i].term(),
    decreases s.len(),
{
    if s.len() > 0 {
        lemma_terms_of(s.drop_last());
    }
}

} // verus!
