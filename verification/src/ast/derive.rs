//! Differentiation of expressions of the binary-tree form.
//!
//! `lderiv` states the rules: sum, difference, product and quotient rules,
//! the power rule for exponents free of the variable and logarithmic
//! differentiation otherwise, a table of built-in functions, and for any other
//! function the chain rule over symbolic partial derivatives `∂^1_f(..)/∂_x^1`.
//! A symbol that is itself such a derivative is differentiated by raising its order.

use vstd::prelude::*;
use std::collections::HashSet;
use crate::number::int_num;
use crate::text::{push_string, string_is};
use super::{Expr, Node, nodes_of, lemma_nodes_of, call1, call2, mk_int, mk_add, mk_sub, mk_mul, mk_div, mk_pow};
use super::display::{lshow_list, push_args};
use super::notation::{notation_order, notation_bump, separator, bump_notation};
use super::rules::{unary_name, order_name, unary_rule, order_rule, is_unary_name, is_order_name, unary_rule_exec, order_rule_exec};

verus! {

// ---------------------------------------------------------------------------
// Specification
// ---------------------------------------------------------------------------

/// The names held in a set of strings.
pub open spec fn names_in(s: Set<String>) -> Set<Seq<char>> {
    Set::new(|v: Seq<char>| exists|x: String| s.contains(x) && x@ == v)
}

/// The literal zero.
pub open spec fn zero_node() -> Node {
    Node::Num(int_num(0))
}

/// Whether `t` is the literal zero.
pub open spec fn is_zero_node(t: Node) -> bool {
    t matches Node::Num(n) && n.mant() == 0
}

/// The symbol `∂^1_name(args)/∂_var^1` for a partial derivative of an unknown function.
pub open spec fn partial_symbol(name: Seq<char>, args: Seq<Node>, var: Seq<char>) -> Seq<char> {
    seq!['∂', '^', '1', '_'] + name + seq!['('] + lshow_list(args) + seq![')'] + separator() + var + seq!['^', '1']
}

/// The symbol `∂_name(args)/∂_var` left for a built-in function called with the wrong number of arguments.
pub open spec fn arity_symbol(name: Seq<char>, args: Seq<Node>, var: Seq<char>) -> Seq<char> {
    seq!['∂', '_'] + name + seq!['('] + lshow_list(args) + seq![')'] + separator() + var
}

/// `s[0] + s[1] + ... `, added from the left (`s` not empty).
pub open spec fn add_fold(s: Seq<Node>) -> Node
    decreases s.len(),
{
    if s.len() <= 1 {
        s[0]
    } else {
        Node::Add(Box::new(add_fold(s.drop_last())), Box::new(s.last()))
    }
}

/// The sum of the terms, zero for none.
pub open spec fn combine(s: Seq<Node>) -> Node {
    if s.len() == 0 { zero_node() } else { add_fold(s) }
}

/// Chain-rule terms of an unknown function over its first `k` arguments.
pub open spec fn custom_terms(name: Seq<char>, args: Seq<Node>, ps: Seq<Node>, var: Seq<char>, k: int) -> Seq<Node>
    decreases k,
{
    if k <= 0 {
        Seq::empty()
    } else {
        let prev = custom_terms(name, args, ps, var, k - 1);
        if is_zero_node(ps[k - 1]) {
            prev
        } else {
            prev.push(Node::Mul(Box::new(Node::Sym(partial_symbol(name, args, var))), Box::new(ps[k - 1])))
        }
    }
}

/// `beta(a, b) * (digamma(s) - digamma(a + b)) * p`.
pub open spec fn beta_part(a: Node, b: Node, s: Node, p: Node) -> Node {
    Node::Mul(
        Box::new(Node::Mul(
            Box::new(Node::Call("beta"@, seq![a, b])),
            Box::new(Node::Sub(
                Box::new(Node::Call("digamma"@, seq![s])),
                Box::new(Node::Call("digamma"@, seq![Node::Add(Box::new(a), Box::new(b))])),
            )),
        )),
        Box::new(p),
    )
}

/// The terms of the derivative of `beta(a, b)`.
pub open spec fn beta_parts(a: Node, b: Node, pa: Node, pb: Node) -> Seq<Node> {
    let first: Seq<Node> = if is_zero_node(pa) { Seq::empty() } else { seq![beta_part(a, b, a, pa)] };
    if is_zero_node(pb) { first } else { first.push(beta_part(a, b, b, pb)) }
}

/// The derivative of `t` in `v`, where the names in `fixed` are constants.
pub open spec fn lderiv(t: Node, v: Seq<char>, fixed: Set<Seq<char>>) -> Node
    decreases t,
{
    match t {
        Node::Num(_) => zero_node(),
        Node::Sym(name) => match notation_bump(name, v) {
            Some(s) => Node::Sym(s),
            None => if name == v && !fixed.contains(name) { Node::Num(int_num(1)) } else { zero_node() },
        },
        Node::Call(name, args) => {
            if unary_name(name) {
                if args.len() == 0 { zero_node() } else { unary_rule(name, args[0], lderiv(args[0], v, fixed)) }
            } else if order_name(name) {
                if args.len() != 2 {
                    Node::Sym(arity_symbol(name, args, v))
                } else {
                    order_rule(name, args[0], args[1], lderiv(args[1], v, fixed))
                }
            } else if name == "beta"@ {
                if args.len() != 2 {
                    Node::Sym(arity_symbol(name, args, v))
                } else {
                    combine(beta_parts(args[0], args[1], lderiv(args[0], v, fixed), lderiv(args[1], v, fixed)))
                }
            } else {
                combine(custom_terms(name, args, lderivs(args, v, fixed), v, args.len() as int))
            }
        },
        Node::Add(a, b) => Node::Add(Box::new(lderiv(*a, v, fixed)), Box::new(lderiv(*b, v, fixed))),
        Node::Sub(a, b) => Node::Sub(Box::new(lderiv(*a, v, fixed)), Box::new(lderiv(*b, v, fixed))),
        Node::Mul(a, b) => Node::Add(
            Box::new(Node::Mul(Box::new(lderiv(*a, v, fixed)), b)),
            Box::new(Node::Mul(a, Box::new(lderiv(*b, v, fixed)))),
        ),
        Node::Div(a, b) => Node::Div(
            Box::new(Node::Sub(
                Box::new(Node::Mul(Box::new(lderiv(*a, v, fixed)), b)),
                Box::new(Node::Mul(a, Box::new(lderiv(*b, v, fixed)))),
            )),
            Box::new(Node::Pow(b, Box::new(Node::Num(int_num(2))))),
        ),
        Node::Pow(a, b) => {
            let pb = lderiv(*b, v, fixed);
            let pa = lderiv(*a, v, fixed);
            if is_zero_node(pb) {
                Node::Mul(
                    b,
                    Box::new(Node::Mul(
                        Box::new(Node::Pow(a, Box::new(Node::Add(b, Box::new(Node::Num(int_num(-1))))))),
                        Box::new(pa),
                    )),
                )
            } else {
                Node::Mul(
                    Box::new(Node::Pow(a, b)),
                    Box::new(Node::Add(
                        Box::new(Node::Mul(Box::new(pb), Box::new(Node::Call("ln"@, seq![*a])))),
                        Box::new(Node::Mul(b, Box::new(Node::Div(Box::new(pa), a)))),
                    )),
                )
            }
        },
    }
}

/// The derivatives of the nodes, in order.
pub open spec fn lderivs(s: Seq<Node>, v: Seq<char>, fixed: Set<Seq<char>>) -> Seq<Node>
    decreases s,
{
    if s.len() == 0 {
        Seq::empty()
    } else {
        lderivs(s.drop_last(), v, fixed).push(lderiv(s.last(), v, fixed))
    }
}

/// Whether differentiating `t` in `v` completes: every built-in function of one
/// argument that it reaches has an argument, and no derivative symbol it
/// reaches has the largest order.
pub open spec fn lderivable(t: Node, v: Seq<char>) -> bool
    decreases t,
{
    match t {
        Node::Num(_) => true,
        Node::Sym(name) => notation_order(name) != Some(i32::MAX as int),
        Node::Call(name, args) => {
            if unary_name(name) {
                args.len() >= 1 && lderivable(args[0], v)
            } else if order_name(name) {
                args.len() == 2 ==> lderivable(args[1], v)
            } else if name == "beta"@ {
                args.len() == 2 ==> lderivable(args[0], v) && lderivable(args[1], v)
            } else {
                all_lderivable(args, v)
            }
        },
        Node::Add(a, b) => lderivable(*a, v) && lderivable(*b, v),
        Node::Sub(a, b) => lderivable(*a, v) && lderivable(*b, v),
        Node::Mul(a, b) => lderivable(*a, v) && lderivable(*b, v),
        Node::Div(a, b) => lderivable(*a, v) && lderivable(*b, v),
        Node::Pow(a, b) => lderivable(*a, v) && lderivable(*b, v),
    }
}

/// Whether every node of the list is `lderivable`.
pub open spec fn all_lderivable(s: Seq<Node>, v: Seq<char>) -> bool
    decreases s,
{
    if s.len() == 0 {
        true
    } else {
        all_lderivable(s.drop_last(), v) && lderivable(s.last(), v)
    }
}

/// `lderivs` maps `lderiv` over the list, and `all_lderivable` holds of every element.
pub proof fn lemma_lderivs(s: Seq<Node>, v: Seq<char>, fixed: Set<Seq<char>>)
    ensures
        lderivs(s, v, fixed).len() == s.len(),
        forall|i: int| 0 <= i < s.len() ==> #[trigger] lderivs(s, v, fixed)[i] == lderiv(s[i], v, fixed),
        all_lderivable(s, v) ==> forall|i: int| 0 <= i < s.len() ==> #[trigger] lderivable(s[i], v),
    decreases s.len(),
{
    if s.len() > 0 {
        lemma_lderivs(s.drop_last(), v, fixed);
        assert forall|i: int| 0 <= i < s.len() implies #[trigger] lderivs(s, v, fixed)[i] == lderiv(s[i], v, fixed) by {
            if i < s.len() - 1 {
                assert(s.drop_last()[i] == s[i]);
            }
        }
        if all_lderivable(s, v) {
            assert forall|i: int| 0 <= i < s.len() implies #[trigger] lderivable(s[i], v) by {
                if i < s.len() - 1 {
                    assert(s.drop_last()[i] == s[i]);
                }
            }
        }
    }
}

// ---------------------------------------------------------------------------
// Implementation
// ---------------------------------------------------------------------------

/// `HashSet::contains` on a set of strings: whether a string with the same
/// characters as `name` is in the set.
#[verifier::external_body]
fn set_contains(set: &HashSet<String>, name: &String) -> (r: bool)
    ensures
        r == names_in(set@).contains(name@),
{
    set.contains(name)
}

/// The sum of the terms, added from the left; zero for none.
fn combine_exec(v: Vec<Expr>) -> (r: Expr)
    ensures
        r@ == combine(nodes_of(v@)),
{
    proof { lemma_nodes_of(v@); }
    let ghost s = nodes_of(v@);
    let n = v.len();
    if n == 0 {
        return mk_int(0);
    }
    let mut v = v;
    let mut acc = v.remove(0);
    let mut k: usize = 1;
    assert(s.subrange(0, 1).len() == 1);
    while k < n
        invariant
            1 <= k <= n,
            n == s.len(),
            v@.len() == n - k,
            forall|j: int| 0 <= j < v@.len() ==> #[trigger] v@[j].node() == s[j + k],
            acc@ == add_fold(s.subrange(0, k as int)),
        decreases n - k,
    {
        let next = v.remove(0);
        proof {
            let t = s.subrange(0, k + 1);
            assert(t.drop_last() =~= s.subrange(0, k as int));
            assert(t.last() == s[k as int]);
        }
        acc = mk_add(acc, next);
        k = k + 1;
    }
    assert(s.subrange(0, n as int) =~= s);
    acc
}

/// The printed arguments, joined by `, `.
fn args_text(args: &Vec<Expr>) -> (r: String)
    ensures
        r@ == lshow_list(nodes_of(args@)),
{
    let mut out = String::new();
    push_args(&mut out, args);
    assert(out@ =~= lshow_list(nodes_of(args@)));
    out
}

/// The symbol `∂^1_name(args)/∂_var^1`.
fn partial_symbol_exec(name: &String, args: &Vec<Expr>, var: &str) -> (r: String)
    ensures
        r@ == partial_symbol(name@, nodes_of(args@), var@),
{
    let mut out = String::new();
    out.push('∂');
    out.push('^');
    out.push('1');
    out.push('_');
    push_string(&mut out, name);
    out.push('(');
    let a = args_text(args);
    push_string(&mut out, &a);
    out.push(')');
    out.push('/');
    out.push('∂');
    out.push('_');
    out.append(var);
    out.push('^');
    out.push('1');
    assert(out@ =~= partial_symbol(name@, nodes_of(args@), var@));
    out
}

/// The symbol `∂_name(args)/∂_var`.
fn arity_symbol_exec(name: &String, args: &Vec<Expr>, var: &str) -> (r: String)
    ensures
        r@ == arity_symbol(name@, nodes_of(args@), var@),
{
    let mut out = String::new();
    out.push('∂');
    out.push('_');
    push_string(&mut out, name);
    out.push('(');
    let a = args_text(args);
    push_string(&mut out, &a);
    out.push(')');
    out.push('/');
    out.push('∂');
    out.push('_');
    out.append(var);
    assert(out@ =~= arity_symbol(name@, nodes_of(args@), var@));
    out
}

/// `beta(a, b) * (digamma(s) - digamma(a + b)) * p`.
fn beta_part_exec(a: &Expr, b: &Expr, s: &Expr, p: Expr) -> (r: Expr)
    ensures
        r@ == beta_part(a@, b@, s@, p@),
{
    let bt = call2("beta", a.deep_copy(), b.deep_copy());
    let ds = call1("digamma", s.deep_copy());
    let dab = call1("digamma", mk_add(a.deep_copy(), b.deep_copy()));
    mk_mul(mk_mul(bt, mk_sub(ds, dab)), p)
}

impl Expr {
    /// The derivative of the expression in `var`, where the names in
    /// `fixed_vars` are constants.
    #[verifier::loop_isolation(false)]
    pub fn derive(&self, var: &str, fixed_vars: &HashSet<String>) -> (r: Expr)
        requires
            lderivable(self@, var@),
        ensures
            r@ == lderiv(self@, var@, names_in(fixed_vars@)),
        decreases self,
    {
        let ghost fx = names_in(fixed_vars@);
        match self {
            Expr::Number(_) => mk_int(0),
            Expr::Symbol(name) => {
                match bump_notation(name, var) {
                    Some(s) => Expr::Symbol(s),
                    None => {
                        if string_is(name, var) && !set_contains(fixed_vars, name) {
                            mk_int(1)
                        } else {
                            mk_int(0)
                        }
                    },
                }
            },
            Expr::FunctionCall { name, args } => {
                proof {
                    lemma_nodes_of(args@);
                    lemma_lderivs(nodes_of(args@), var@, fx);
                }
                if is_unary_name(name) {
                    assert(decreases_to!(self => args@[0]));
                    let p = args[0].derive(var, fixed_vars);
                    unary_rule_exec(name, &args[0], p)
                } else if is_order_name(name) {
                    if args.len() != 2 {
                        Expr::Symbol(arity_symbol_exec(name, args, var))
                    } else {
                        assert(decreases_to!(self => args@[1]));
                        let p = args[1].derive(var, fixed_vars);
                        order_rule_exec(name, &args[0], &args[1], p)
                    }
                } else if string_is(name, "beta") {
                    if args.len() != 2 {
                        Expr::Symbol(arity_symbol_exec(name, args, var))
                    } else {
                        assert(decreases_to!(self => args@[0]));
                        assert(decreases_to!(self => args@[1]));
                        let pa = args[0].derive(var, fixed_vars);
                        let pb = args[1].derive(var, fixed_vars);
                        let mut terms: Vec<Expr> = Vec::new();
                        if !is_zero_exec(&pa) {
                            terms.push(beta_part_exec(&args[0], &args[1], &args[0], pa));
                        }
                        if !is_zero_exec(&pb) {
                            terms.push(beta_part_exec(&args[0], &args[1], &args[1], pb));
                        }
                        proof {
                            lemma_nodes_of(terms@);
                            assert(nodes_of(terms@) =~= beta_parts(args@[0]@, args@[1]@,
                                lderiv(args@[0]@, var@, fx), lderiv(args@[1]@, var@, fx)));
                        }
                        combine_exec(terms)
                    }
                } else {
                    let mut terms: Vec<Expr> = Vec::new();
                    let ghost ta = nodes_of(args@);
                    let ghost ps = lderivs(ta, var@, fx);
                    let mut i: usize = 0;
                    while i < args.len()
                        invariant
                            i <= args@.len(),
                            ta == nodes_of(args@),
                            ta.len() == args@.len(),
                            ps == lderivs(ta, var@, fx),
                            ps.len() == ta.len(),
                            forall|k: int| 0 <= k < ta.len() ==> #[trigger] ps[k] == lderiv(ta[k], var@, fx),
                            forall|k: int| 0 <= k < ta.len() ==> #[trigger] ta[k] == args@[k]@,
                            forall|k: int| 0 <= k < ta.len() ==> lderivable(#[trigger] ta[k], var@),
                            nodes_of(terms@) == custom_terms(name@, ta, ps, var@, i as int),
                        decreases args.len() - i,
                    {
                        assert(decreases_to!(self => args@[i as int]));
                        assert(lderivable(ta[i as int], var@));
                        assert(ta[i as int] == args@[i as int]@);
                        let p = args[i].derive(var, fixed_vars);
                        if !is_zero_exec(&p) {
                            let sym = Expr::Symbol(partial_symbol_exec(name, args, var));
                            let t = mk_mul(sym, p);
                            let ghost old_terms = terms@;
                            terms.push(t);
                            proof { assert(terms@.drop_last() =~= old_terms); }
                        }
                        i = i + 1;
                    }
                    combine_exec(terms)
                }
            },
            Expr::Add(a, b) => mk_add(a.derive(var, fixed_vars), b.derive(var, fixed_vars)),
            Expr::Sub(a, b) => mk_sub(a.derive(var, fixed_vars), b.derive(var, fixed_vars)),
            Expr::Mul(a, b) => {
                let pa = a.derive(var, fixed_vars);
                let pb = b.derive(var, fixed_vars);
                mk_add(mk_mul(pa, b.deep_copy()), mk_mul(a.deep_copy(), pb))
            },
            Expr::Div(a, b) => {
                let pa = a.derive(var, fixed_vars);
                let pb = b.derive(var, fixed_vars);
                let num = mk_sub(mk_mul(pa, b.deep_copy()), mk_mul(a.deep_copy(), pb));
                mk_div(num, mk_pow(b.deep_copy(), mk_int(2)))
            },
            Expr::Pow(a, b) => {
                let pb = b.derive(var, fixed_vars);
                if is_zero_exec(&pb) {
                    let pa = a.derive(var, fixed_vars);
                    let lowered = mk_add(b.deep_copy(), mk_int(-1));
                    mk_mul(b.deep_copy(), mk_mul(mk_pow(a.deep_copy(), lowered), pa))
                } else {
                    let pa = a.derive(var, fixed_vars);
                    let t1 = mk_mul(pb, call1("ln", a.deep_copy()));
                    let t2 = mk_mul(b.deep_copy(), mk_div(pa, a.deep_copy()));
                    mk_mul(mk_pow(a.deep_copy(), b.deep_copy()), mk_add(t1, t2))
                }
            },
        }
    }
}

/// Whether the expression is the literal zero.
fn is_zero_exec(e: &Expr) -> (r: bool)
    ensures
        r == is_zero_node(e@),
{
    match e {
        Expr::Number(n) => n.is_zero(),
        _ => false,
    }
}

} // verus!
