//! Printing expressions of the binary-tree form.
//!
//! Sums and differences print in parentheses, `(u + v)`; products and
//! quotients print as `u * v` and `u / v`, with a sum operand parenthesized;
//! a product with the literal `-1` on the left prints as `-v`; powers print as
//! `(u)^v`.

use vstd::prelude::*;
use crate::number::decimal_text;
use crate::text::push_string;
use crate::expr::show::parens;
use super::{Expr, Node, nodes_of, lemma_nodes_of};

verus! {

/// Whether `t` is the literal minus one.
pub open spec fn is_neg_one(t: Node) -> bool {
    t matches Node::Num(n) && n.mant() == -1 && n.places() == 0
}

/// How `t` prints.
pub open spec fn lshow(t: Node) -> Seq<char>
    decreases t,
{
    match t {
        Node::Num(n) => decimal_text(n.mant(), n.places()),
        Node::Sym(s) => s,
        Node::Call(name, args) => name + seq!['('] + lshow_list(args) + seq![')'],
        Node::Add(a, b) => seq!['('] + lshow(*a) + seq![' ', '+', ' '] + lshow(*b) + seq![')'],
        Node::Sub(a, b) => seq!['('] + lshow(*a) + seq![' ', '-', ' '] + lshow(*b) + seq![')'],
        Node::Mul(a, b) => {
            if is_neg_one(*a) {
                seq!['-'] + parens(lshow(*b), *b is Add)
            } else {
                parens(lshow(*a), *a is Add) + seq![' ', '*', ' '] + parens(lshow(*b), *b is Add)
            }
        },
        Node::Div(a, b) => parens(lshow(*a), *a is Add) + seq![' ', '/', ' '] + parens(lshow(*b), *b is Add),
        Node::Pow(a, b) => seq!['('] + lshow(*a) + seq![')', '^'] + lshow(*b),
    }
}

/// The nodes printed and joined by `, `.
pub open spec fn lshow_list(s: Seq<Node>) -> Seq<char>
    decreases s,
{
    if s.len() == 0 {
        Seq::empty()
    } else if s.len() == 1 {
        lshow(s[0])
    } else {
        lshow_list(s.drop_last()) + seq![',', ' '] + lshow(s.last())
    }
}

impl Expr {
    /// The expression as text.
    pub fn to_display_string(&self) -> (r: String)
        ensures
            r@ == lshow(self@),
    {
        let mut out = String::new();
        self.push_display(&mut out);
        out
    }

    /// Append the text of the expression to `out`.
    pub fn push_display(&self, out: &mut String)
        ensures
            final(out)@ == old(out)@ + lshow(self@),
        decreases self, 1nat,
    {
        let ghost start = out@;
        match self {
            Expr::Number(n) => {
                let t = n.to_text();
                push_string(out, &t);
            },
            Expr::Symbol(s) => {
                push_string(out, s);
            },
            Expr::FunctionCall { name, args } => {
                push_string(out, name);
                out.push('(');
                push_args(out, args);
                out.push(')');
                assert(out@ =~= start + lshow(self@));
            },
            Expr::Add(a, b) => {
                out.push('(');
                a.push_display(out);
                out.push(' ');
                out.push('+');
                out.push(' ');
                b.push_display(out);
                out.push(')');
                assert(out@ =~= start + lshow(self@));
            },
            Expr::Sub(a, b) => {
                out.push('(');
                a.push_display(out);
                out.push(' ');
                out.push('-');
                out.push(' ');
                b.push_display(out);
                out.push(')');
                assert(out@ =~= start + lshow(self@));
            },
            Expr::Mul(a, b) => {
                let neg = match &**a {
                    Expr::Number(n) => n.is_int(-1),
                    _ => false,
                };
                assert(neg == is_neg_one(a.node()));
                if neg {
                    out.push('-');
                    push_operand(out, b);
                } else {
                    push_operand(out, a);
                    out.push(' ');
                    out.push('*');
                    out.push(' ');
                    push_operand(out, b);
                }
                assert(out@ =~= start + lshow(self@));
            },
            Expr::Div(a, b) => {
                push_operand(out, a);
                out.push(' ');
                out.push('/');
                out.push(' ');
                push_operand(out, b);
                assert(out@ =~= start + lshow(self@));
            },
            Expr::Pow(a, b) => {
                out.push('(');
                a.push_display(out);
                out.push(')');
                out.push('^');
                b.push_display(out);
                assert(out@ =~= start + lshow(self@));
            },
        }
    }
}

/// An operand of a product or quotient as text: a sum is parenthesized.
pub fn format_mul_operand(expr: &Expr) -> (r: String)
    ensures
        r@ == parens(lshow(expr@), expr@ is Add),
{
    let mut out = String::new();
    push_operand(&mut out, expr);
    out
}

/// Append an operand of a product or quotient, a sum in parentheses.
fn push_operand(out: &mut String, e: &Expr)
    ensures
        final(out)@ == old(out)@ + parens(lshow(e@), e@ is Add),
    decreases e, 2nat,
{
    let ghost start = out@;
    let wrap = match e {
        Expr::Add(_, _) => true,
        _ => false,
    };
    if wrap {
        out.push('(');
    }
    e.push_display(out);
    if wrap {
        out.push(')');
    }
    assert(out@ =~= start + parens(lshow(e@), e@ is Add));
}

/// Append the texts of the arguments joined by `, `.
#[verifier::loop_isolation(false)]
pub fn push_args(out: &mut String, v: &Vec<Expr>)
    ensures
        final(out)@ == old(out)@ + lshow_list(nodes_of(v@)),
    decreases v, 0nat,
{
    proof { lemma_nodes_of(v@); }
    let ghost tv = nodes_of(v@);
    let ghost start = out@;
    let mut i: usize = 0;
    assert(tv.subrange(0, 0) =~= Seq::<Node>::empty());
    while i < v.len()
        invariant
            i <= v@.len(),
            tv == nodes_of(v@),
            tv.len() == v@.len(),
            forall|k: int| 0 <= k < v@.len() ==> #[trigger] tv[k] == v@[k].node(),
            out@ == start + lshow_list(tv.subrange(0, i as int)),
        decreases v.len() - i,
    {
        if i > 0 {
            out.push(',');
            out.push(' ');
        }
        assert(decreases_to!(v => v@[i as int]));
        v[i].push_display(out);
        proof {
            let s = tv.subrange(0, i + 1);
            assert(s.drop_last() =~= tv.subrange(0, i as int));
            assert(s.last() == tv[i as int]);
            if i == 0 {
                assert(s[0] == tv[0]);
            }
            assert(out@ =~= start + lshow_list(s));
        }
        i = i + 1;
    }
    assert(tv.subrange(0, tv.len() as int) =~= tv);
}

/// Law: an operator prints as its own sign. In the text of a sum, a
/// difference or a power, right after the left operand's text (and the
/// opening parenthesis and a space, for sums and differences) comes `+`, `-`
/// or `^`; in a product or quotient, after the possibly parenthesized left
/// operand and a space, comes `*` or `/`; a product by the literal -1 starts
/// with `-`. So a sum and a difference of the same operands never print alike.
pub proof fn law_operators_print_their_sign(a: Node, b: Node)
    ensures
        lshow(Node::Add(Box::new(a), Box::new(b)))[lshow(a).len() as int + 2] == '+',
        lshow(Node::Sub(Box::new(a), Box::new(b)))[lshow(a).len() as int + 2] == '-',
        lshow(Node::Pow(Box::new(a), Box::new(b)))[lshow(a).len() as int + 2] == '^',
        !is_neg_one(a) ==> lshow(Node::Mul(Box::new(a), Box::new(b)))[parens(lshow(a), a is Add).len() as int + 1] == '*',
        is_neg_one(a) ==> lshow(Node::Mul(Box::new(a), Box::new(b)))[0] == '-',
        lshow(Node::Div(Box::new(a), Box::new(b)))[parens(lshow(a), a is Add).len() as int + 1] == '/',
        lshow(Node::Add(Box::new(a), Box::new(b))) != lshow(Node::Sub(Box::new(a), Box::new(b))),
{
    let la = lshow(a);
    let lb = lshow(b);
    let pa = parens(la, a is Add);
    let pb = parens(lb, b is Add);
    let add = lshow(Node::Add(Box::new(a), Box::new(b)));
    let sub = lshow(Node::Sub(Box::new(a), Box::new(b)));
    assert(add == seq!['('] + la + seq![' ', '+', ' '] + lb + seq![')']);
    assert(add[la.len() as int + 2] == '+');
    assert(sub[la.len() as int + 2] == '-');
    assert(lshow(Node::Pow(Box::new(a), Box::new(b)))[la.len() as int + 2] == '^');
    if !is_neg_one(a) {
        assert(lshow(Node::Mul(Box::new(a), Box::new(b)))[pa.len() as int + 1] == '*');
    }
    assert(lshow(Node::Div(Box::new(a), Box::new(b)))[pa.len() as int + 1] == '/');
}

} // verus!
