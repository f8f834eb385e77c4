//! Printing expressions.
//!
//! Sums print their terms joined by ` + `, products their factors joined by
//! `*` (a leading literal `-1` prints as a minus sign), quotients and powers
//! as `a/b` and `a^b`, and an unevaluated derivative as `∂^n_f/∂_x^n`.
//! Operands that would read differently without them are parenthesized.

use vstd::prelude::*;
use crate::number::decimal_text;
use crate::text::{nat_digits, u64_digits, push_chars, push_string};
use super::{Expr, ExprKind, Term, terms_of, lemma_terms_of};

verus! {

/// `s` in parentheses when `wrap` holds.
pub open spec fn parens(s: Seq<char>, wrap: bool) -> Seq<char> {
    if wrap { seq!['('] + s + seq![')'] } else { s }
}

/// Whether `t` is the literal minus one.
pub open spec fn is_minus_one(t: Term) -> bool {
    t matches Term::Num(n) && n.mant() == -1 && n.places() == 0
}

/// Whether `t` prints as a single token: a name, a call, or a literal that is not negative.
pub open spec fn atomic(t: Term) -> bool {
    match t {
        Term::Num(n) => n.mant() >= 0,
        Term::Sym(_) => true,
        Term::Call(_, _) => true,
        _ => false,
    }
}

/// Whether `t` needs parentheses as a factor of a product.
pub open spec fn paren_factor(t: Term) -> bool {
    t is Sum
}

/// Whether `t` needs parentheses as a denominator.
pub open spec fn paren_denominator(t: Term) -> bool {
    t is Sum || t is Prod || t is Div
}

/// How `t` prints.
pub open spec fn show(t: Term) -> Seq<char>
    decreases t,
{
    match t {
        Term::Num(n) => decimal_text(n.mant(), n.places()),
        Term::Sym(s) => s,
        Term::Call(name, args) => name + seq!['('] + show_list(args, seq![',', ' '], false) + seq![')'],
        Term::Sum(ts) => if ts.len() == 0 { seq!['0'] } else { show_list(ts, seq![' ', '+', ' '], false) },
        Term::Prod(fs) => {
            if fs.len() == 0 {
                seq!['1']
            } else if fs.len() >= 2 && is_minus_one(fs[0]) {
                seq!['-'] + show_list(fs.drop_first(), seq!['*'], true)
            } else {
                show_list(fs, seq!['*'], true)
            }
        },
        Term::Div(a, b) => parens(show(*a), paren_factor(*a)) + seq!['/'] + parens(show(*b), paren_denominator(*b)),
        Term::Pow(a, b) => parens(show(*a), !atomic(*a)) + seq!['^'] + parens(show(*b), !atomic(*b)),
        Term::Deriv(inner, v, n) => seq!['∂', '^'] + nat_digits(n) + seq!['_'] + show(*inner) + seq!['/', '∂', '_'] + v
            + seq!['^'] + nat_digits(n),
    }
}

/// The terms printed and joined by `sep`; with `factors`, sums are parenthesized.
pub open spec fn show_list(s: Seq<Term>, sep: Seq<char>, factors: bool) -> Seq<char>
    decreases s,
{
    if s.len() == 0 {
        Seq::empty()
    } else {
        let item = parens(show(s.last()), factors && paren_factor(s.last()));
        if s.len() == 1 {
            item
        } else {
            show_list(s.drop_last(), sep, factors) + sep + item
        }
    }
}

impl Expr {
    /// The expression as text.
    pub fn to_display_string(&self) -> (r: String)
        ensures
            r@ == show(self@),
    {
        let mut out = String::new();
        self.push_display(&mut out);
        out
    }

    /// Append the text of the expression to `out`.
    pub fn push_display(&self, out: &mut String)
        ensures
            final(out)@ == old(out)@ + show(self@),
        decreases self, 1nat,
    {
        let ghost start = out@;
        match &self.kind {
            ExprKind::Number(n) => {
                let t = n.to_text();
                push_string(out, &t);
            },
            ExprKind::Symbol(s) => {
                push_string(out, s);
            },
            ExprKind::FunctionCall { name, args } => {
                push_string(out, name);
                out.push('(');
                push_list(out, args, 0, ", ", false);
                out.push(')');
                proof {
                    reveal_strlit(", ");
                    lemma_terms_of(args@);
                    assert(terms_of(args@).subrange(0, args@.len() as int) =~= terms_of(args@));
                    assert(", "@ =~= seq![',', ' ']);
                }
                assert(out@ =~= start + show(self@));
            },
            ExprKind::Sum(ts) => {
                if ts.len() == 0 {
                    out.push('0');
                    proof { lemma_terms_of(ts@); }
                } else {
                    proof {
                        lemma_terms_of(ts@);
                        reveal_strlit(" + ");
                        assert(terms_of(ts@).subrange(0, ts@.len() as int) =~= terms_of(ts@));
                        assert(" + "@ =~= seq![' ', '+', ' ']);
                    }
                    push_list(out, ts, 0, " + ", false);
                }
                assert(out@ =~= start + show(self@));
            },
            ExprKind::Product(fs) => {
                proof { lemma_terms_of(fs@); reveal_strlit("*"); assert("*"@ =~= seq!['*']); }
                let ghost tf = terms_of(fs@);
                if fs.len() == 0 {
                    out.push('1');
                } else if fs.len() >= 2 && is_minus_one_exec(&fs[0]) {
                    out.push('-');
                    push_list(out, fs, 1, "*", true);
                    assert(tf.subrange(1, tf.len() as int) =~= tf.drop_first());
                } else {
                    push_list(out, fs, 0, "*", true);
                    assert(tf.subrange(0, tf.len() as int) =~= tf);
                }
                assert(out@ =~= start + show(self@));
            },
            ExprKind::Div(a, b) => {
                let pa = match &a.kind { ExprKind::Sum(_) => true, _ => false };
                push_wrapped(out, a, pa);
                out.push('/');
                let pb = match &b.kind { ExprKind::Sum(_) | ExprKind::Product(_) | ExprKind::Div(_, _) => true, _ => false };
                push_wrapped(out, b, pb);
                assert(out@ =~= start + show(self@));
            },
            ExprKind::Pow(a, b) => {
                let pa = !is_atomic_exec(a);
                push_wrapped(out, a, pa);
                out.push('^');
                let pb = !is_atomic_exec(b);
                push_wrapped(out, b, pb);
                assert(out@ =~= start + show(self@));
            },
            ExprKind::Derivative { inner, var, order } => {
                let d = u64_digits(*order as u64);
                out.push('∂');
                out.push('^');
                push_chars(out, &d);
                out.push('_');
                inner.push_display(out);
                out.push('/');
                out.push('∂');
                out.push('_');
                push_string(out, var);
                out.push('^');
                push_chars(out, &d);
                assert(out@ =~= start + show(self@));
            },
        }
    }
}

/// Whether the expression is the literal minus one.
fn is_minus_one_exec(e: &Expr) -> (r: bool)
    ensures
        r == is_minus_one(e@),
{
    match &e.kind {
        ExprKind::Number(n) => n.is_int(-1),
        _ => false,
    }
}

/// Whether the expression prints as a single token.
fn is_atomic_exec(e: &Expr) -> (r: bool)
    ensures
        r == atomic(e@),
{
    match &e.kind {
        ExprKind::Number(n) => n.mantissa() >= 0,
        ExprKind::Symbol(_) => true,
        ExprKind::FunctionCall { .. } => true,
        _ => false,
    }
}

/// Append the text of `e`, in parentheses when `wrap` holds.
fn push_wrapped(out: &mut String, e: &Expr, wrap: bool)
    ensures
        final(out)@ == old(out)@ + parens(show(e@), wrap),
    decreases e, 2nat,
{
    let ghost start = out@;
    if wrap {
        out.push('(');
    }
    e.push_display(out);
    if wrap {
        out.push(')');
    }
    assert(out@ =~= start + parens(show(e@), wrap));
}

/// Append the texts of `v[from..]` joined by `sep`; with `factors`, sums are parenthesized.
#[verifier::loop_isolation(false)]
fn push_list(out: &mut String, v: &Vec<Expr>, from: usize, sep: &str, factors: bool)
    requires
        from <= v@.len(),
    ensures
        final(out)@ == old(out)@ + show_list(terms_of(v@).subrange(from as int, v@.len() as int), sep@, factors),
    decreases v, 0nat,
{
    proof { lemma_terms_of(v@); }
    let ghost tv = terms_of(v@);
    let ghost start = out@;
    let mut i: usize = from;
    assert(tv.subrange(from as int, from as int) =~= Seq::<Term>::empty());
    while i < v.len()
        invariant
            from <= i <= v@.len(),
            tv == terms_of(v@),
            tv.len() == v@.len(),
            forall|k: int| 0 <= k < v@.len() ==> #[trigger] tv[k] == v@[k].term(),
            out@ == start + show_list(tv.subrange(from as int, i as int), sep@, factors),
        decreases v.len() - i,
    {
        let ghost before = out@;
        if i > from {
            out.append(sep);
        }
        assert(decreases_to!(v => v@[i as int]));
        let e = &v[i];
        let wrap = factors && match &e.kind { ExprKind::Sum(_) => true, _ => false };
        push_wrapped(out, e, wrap);
        proof {
            let s = tv.subrange(from as int, i + 1);
            assert(s.drop_last() =~= tv.subrange(from as int, i as int));
            assert(s.last() == tv[i as int]);
        }
        i = i + 1;
    }
}

/// Law: an operator prints as its own sign. In the text of a sum of two terms
/// a ` + ` follows the first term's text; in a product of two factors (the
/// first not -1) a `*` follows the first factor's text, parenthesized if it
/// is a sum; in a quotient a `/` and in a power a `^` follow the left
/// operand's text, parenthesized as printed; a product of -1 and more starts
/// with `-`; a call prints its name and then `(`.
pub proof fn law_operators_print_their_sign(a: Term, b: Term, f: Seq<char>)
    ensures
        show(Term::Sum(seq![a, b])).subrange(show(a).len() as int, show(a).len() as int + 3) == seq![' ', '+', ' '],
        !is_minus_one(a) ==> show(Term::Prod(seq![a, b]))[parens(show(a), paren_factor(a)).len() as int] == '*',
        is_minus_one(a) ==> show(Term::Prod(seq![a, b]))[0] == '-',
        show(Term::Div(Box::new(a), Box::new(b)))[parens(show(a), paren_factor(a)).len() as int] == '/',
        show(Term::Pow(Box::new(a), Box::new(b)))[parens(show(a), !atomic(a)).len() as int] == '^',
        show(Term::Call(f, seq![a])).subrange(0, f.len() as int) == f,
        show(Term::Call(f, seq![a]))[f.len() as int] == '(',
{
    let sa = show(a);
    let pa = parens(sa, paren_factor(a));
    let s2 = seq![a, b];
    assert(s2.drop_last() =~= seq![a]);
    assert(s2.last() == b);
    assert(seq![a].last() == a);
    assert(show_list(seq![a], seq![' ', '+', ' '], false) == sa);
    let sum = show(Term::Sum(s2));
    assert(parens(show(b), false) == show(b));
    assert(show_list(s2, seq![' ', '+', ' '], false)
        == show_list(seq![a], seq![' ', '+', ' '], false) + seq![' ', '+', ' '] + parens(show(b), false && paren_factor(b)));
    assert(sum == sa + seq![' ', '+', ' '] + show(b));
    assert(sum.subrange(sa.len() as int, sa.len() as int + 3) =~= seq![' ', '+', ' ']);
    if !is_minus_one(a) {
        assert(show_list(seq![a], seq!['*'], true) == pa);
        let prod = show(Term::Prod(s2));
        assert(show_list(s2, seq!['*'], true)
            == show_list(seq![a], seq!['*'], true) + seq!['*'] + parens(show(b), true && paren_factor(b)));
        assert(prod == show_list(s2, seq!['*'], true));
        assert(prod == pa + seq!['*'] + parens(show(b), paren_factor(b)));
        assert(prod[pa.len() as int] == '*');
    }
    assert(show_list(seq![a], seq![',', ' '], false) == sa);
    let c = show(Term::Call(f, seq![a]));
    assert(c == f + seq!['('] + sa + seq![')']);
    assert(c.subrange(0, f.len() as int) =~= f);
}

} // verus!
