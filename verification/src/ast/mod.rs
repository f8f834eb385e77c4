//! Expressions as binary trees, with their printer and differentiator.
//!
//! This is the plain form of an expression: every operator node has exactly
//! two operands. Each `Expr` is modelled by a `Node` of the same shape.

pub mod rules;
pub mod display;
pub mod notation;
pub mod derive;
pub mod calculus;

use vstd::prelude::*;
use crate::number::Num;

verus! {

/// An expression.
#[derive(Debug)]
pub enum Expr {
    /// A numeric literal.
    Number(Num),
    /// A variable, a named constant, or an unevaluated derivative written out.
    Symbol(String),
    /// A function applied to arguments.
    FunctionCall { name: String, args: Vec<Expr> },
    Add(Box<Expr>, Box<Expr>),
    Sub(Box<Expr>, Box<Expr>),
    Mul(Box<Expr>, Box<Expr>),
    Div(Box<Expr>, Box<Expr>),
    Pow(Box<Expr>, Box<Expr>),
}

/// The model of an expression.
pub enum Node {
    Num(Num),
    Sym(Seq<char>),
    Call(Seq<char>, Seq<Node>),
    Add(Box<Node>, Box<Node>),
    Sub(Box<Node>, Box<Node>),
    Mul(Box<Node>, Box<Node>),
    Div(Box<Node>, Box<Node>),
    Pow(Box<Node>, Box<Node>),
}

/// The models of a list of expressions.
pub open spec fn nodes_of(s: Seq<Expr>) -> Seq<Node>
    decreases s,
{
    if s.len() == 0 {
        Seq::empty()
    } else {
        nodes_of(s.drop_last()).push(s.last().node())
    }
}

impl Expr {
    /// The model of the expression.
    pub open spec fn node(self) -> Node
        decreases self,
    {
        match self {
            Expr::Number(n) => Node::Num(n),
            Expr::Symbol(s) => Node::Sym(s@),
            Expr::FunctionCall { name, args } => Node::Call(name@, nodes_of(args@)),
            Expr::Add(a, b) => Node::Add(Box::new(a.node()), Box::new(b.node())),
            Expr::Sub(a, b) => Node::Sub(Box::new(a.node()), Box::new(b.node())),
            Expr::Mul(a, b) => Node::Mul(Box::new(a.node()), Box::new(b.node())),
            Expr::Div(a, b) => Node::Div(Box::new(a.node()), Box::new(b.node())),
            Expr::Pow(a, b) => Node::Pow(Box::new(a.node()), Box::new(b.node())),
        }
    }
}

impl View for Expr {
    type V = Node;

    open spec fn view(&self) -> Node {
        self.node()
    }
}

/// The model of a list keeps its length and maps each element.
pub proof fn lemma_nodes_of(s: Seq<Expr>)
    ensures
        nodes_of(s).len() == s.len(),
        forall|i: int| 0 <= i < s.len() ==> #[trigger] nodes_of(s)[i] == s[i].node(),
    decreases s.len(),
{
    if s.len() > 0 {
        lemma_nodes_of(s.drop_last());
    }
}

/// A numeric literal.
pub fn mk_num(n: Num) -> (r: Expr)
    ensures
        r@ == Node::Num(n),
{
    Expr::Number(n)
}

/// The integer literal `i`.
pub fn mk_int(i: i64) -> (r: Expr)
    requires
        i != i64::MIN,
    ensures
        r@ == Node::Num(crate::number::int_num(i as int)),
{
    Expr::Number(Num::integer(i))
}

/// A symbol.
pub fn mk_sym(name: &str) -> (r: Expr)
    ensures
        r@ == Node::Sym(name@),
{
    Expr::Symbol(String::from_str(name))
}

/// The `Add` node of `a` and `b`.
pub fn mk_add(a: Expr, b: Expr) -> (r: Expr)
    ensures
        r@ == Node::Add(Box::new(a@), Box::new(b@)),
{
    Expr::Add(Box::new(a), Box::new(b))
}

/// The `Sub` node of `a` and `b`.
pub fn mk_sub(a: Expr, b: Expr) -> (r: Expr)
    ensures
        r@ == Node::Sub(Box::new(a@), Box::new(b@)),
{
    Expr::Sub(Box::new(a), Box::new(b))
}

/// The `Mul` node of `a` and `b`.
pub fn mk_mul(a: Expr, b: Expr) -> (r: Expr)
    ensures
        r@ == Node::Mul(Box::new(a@), Box::new(b@)),
{
    Expr::Mul(Box::new(a), Box::new(b))
}

/// The `Div` node of `a` and `b`.
pub fn mk_div(a: Expr, b: Expr) -> (r: Expr)
    ensures
        r@ == Node::Div(Box::new(a@), Box::new(b@)),
{
    Expr::Div(Box::new(a), Box::new(b))
}

/// The `Pow` node of `a` and `b`.
pub fn mk_pow(a: Expr, b: Expr) -> (r: Expr)
    ensures
        r@ == Node::Pow(Box::new(a@), Box::new(b@)),
{
    Expr::Pow(Box::new(a), Box::new(b))
}

/// `name(a)`.
pub fn call1(name: &str, a: Expr) -> (r: Expr)
    ensures
        r@ == Node::Call(name@, seq![a@]),
{
    let mut args: Vec<Expr> = Vec::new();
    args.push(a);
    proof {
        assert(args@ =~= seq![a]);
        lemma_nodes_of(args@);
        assert(nodes_of(args@) =~= seq![a@]);
    }
    Expr::FunctionCall { name: String::from_str(name), args }
}

/// `name(a, b)`.
pub fn call2(name: &str, a: Expr, b: Expr) -> (r: Expr)
    ensures
        r@ == Node::Call(name@, seq![a@, b@]),
{
    let mut args: Vec<Expr> = Vec::new();
    args.push(a);
    args.push(b);
    proof {
        assert(args@ =~= seq![a, b]);
        lemma_nodes_of(args@);
        assert(nodes_of(args@) =~= seq![a@, b@]);
    }
    Expr::FunctionCall { name: String::from_str(name), args }
}

impl Expr {
    /// A copy of the expression.
    #[verifier::loop_isolation(false)]
    pub fn deep_copy(&self) -> (r: Expr)
        ensures
            r@ == self@,
        decreases self,
    {
        match self {
            Expr::Number(n) => Expr::Number(*n),
            Expr::Symbol(s) => Expr::Symbol(s.clone()),
            Expr::FunctionCall { name, args } => {
                let mut out: Vec<Expr> = Vec::new();
                let mut i: usize = 0;
                while i < args.len()
                    invariant
                        i <= args@.len(),
                        out@.len() == i,
                        forall|j: int| 0 <= j < i ==> #[trigger] out@[j].node() == args@[j].node(),
                    decreases args.len() - i,
                {
                    assert(decreases_to!(self => args@[i as int]));
                    let c = args[i].deep_copy();
                    out.push(c);
                    i = i + 1;
                }
                proof {
                    lemma_nodes_of(out@);
                    lemma_nodes_of(args@);
                    assert(nodes_of(out@) =~= nodes_of(args@));
                }
                Expr::FunctionCall { name: name.clone(), args: out }
            },
            Expr::Add(a, b) => Expr::Add(Box::new(a.deep_copy()), Box::new(b.deep_copy())),
            Expr::Sub(a, b) => Expr::Sub(Box::new(a.deep_copy()), Box::new(b.deep_copy())),
            Expr::Mul(a, b) => Expr::Mul(Box::new(a.deep_copy()), Box::new(b.deep_copy())),
            Expr::Div(a, b) => Expr::Div(Box::new(a.deep_copy()), Box::new(b.deep_copy())),
            Expr::Pow(a, b) => Expr::Pow(Box::new(a.deep_copy()), Box::new(b.deep_copy())),
        }
    }
}

} // verus!
