//! Compiling an expression to instructions over virtual registers.
//!
//! The expression is walked children first, left to right. A parameter reads
//! its parameter register; a literal number or a named constant reads a
//! constant register, each distinct constant entering the pool once, with the
//! number 0 always first; every other node emits one instruction writing a
//! fresh temporary, or passes a child's register on where the node is that
//! child (a one-term sum, a product by the literal 1, a power with exponent
//! 1). The first node that cannot be compiled, in that order, decides the
//! error.
//!
//! Constant values are never computed here: a subtree built only of
//! constants compiles like any other subtree, and an evaluator that wants such
//! subtrees folded folds them in floating point before or after.

use vstd::prelude::*;
use crate::expr::{Expr, ExprKind, Term, terms_of, lemma_terms_of};
use crate::number::{Num, int_num};
use crate::text::string_is;
use super::instruction::FnOp;
use super::vir::{VInstruction, VReg, VKind, VModel, vmodel, vkind, vdest_of, vreads_of};

verus! {

/// What a constant register holds.
#[derive(Clone, Copy, Debug, PartialEq, Eq, Structural)]
pub enum ConstRef {
    /// A literal number.
    Number(Num),
    /// The named constant at this position of the caller's list of named constants.
    Named(u32),
}

/// Why an expression cannot be compiled.
#[derive(Debug)]
pub enum CompileError {
    /// A symbol that is neither a parameter nor a named constant.
    UnboundVariable(String),
    /// A function the evaluator has no operation for, at this number of arguments.
    UnsupportedFunction(String),
    /// An unevaluated derivative.
    UnsupportedExpression,
    /// More temporaries, constants or parameters than registers can number.
    RegisterOverflow,
}

/// The model of a compile error.
pub enum Fault {
    Unbound(Seq<char>),
    Unsupported(Seq<char>),
    Derivative,
    Overflow,
}

impl View for CompileError {
    type V = Fault;

    open spec fn view(&self) -> Fault {
        match self {
            CompileError::UnboundVariable(s) => Fault::Unbound(s@),
            CompileError::UnsupportedFunction(s) => Fault::Unsupported(s@),
            CompileError::UnsupportedExpression => Fault::Derivative,
            CompileError::RegisterOverflow => Fault::Overflow,
        }
    }
}

/// The compiler's state: the instructions emitted so far, the constant pool,
/// and the number of the next temporary.
pub struct Lowering {
    pub code: Seq<VModel>,
    pub pool: Seq<ConstRef>,
    pub next: nat,
}

/// The first position of `x` in `s`, or -1.
pub open spec fn first_index<T>(s: Seq<T>, x: T) -> int
    decreases s.len(),
{
    if s.len() == 0 {
        -1
    } else {
        let k = first_index(s.drop_last(), x);
        if k >= 0 {
            k
        } else if s.last() == x {
            s.len() - 1
        } else {
            -1
        }
    }
}

/// The last position of `x` in `s`, or -1.
pub open spec fn last_index<T>(s: Seq<T>, x: T) -> int
    decreases s.len(),
{
    if s.len() == 0 {
        -1
    } else if s.last() == x {
        s.len() - 1
    } else {
        last_index(s.drop_last(), x)
    }
}

/// `first_index` is the position of the first occurrence, -1 when there is none.
pub proof fn lemma_first_index<T>(s: Seq<T>, x: T)
    ensures
        -1 <= first_index(s, x) < s.len(),
        first_index(s, x) >= 0 ==> s[first_index(s, x)] == x,
        forall|j: int| 0 <= j < s.len() && (first_index(s, x) < 0 || j < first_index(s, x)) ==> s[j] != x,
    decreases s.len(),
{
    if s.len() > 0 {
        let t = s.drop_last();
        lemma_first_index(t, x);
        if first_index(t, x) >= 0 {
            assert(t[first_index(t, x)] == s[first_index(t, x)]);
        }
        assert forall|j: int| 0 <= j < s.len() && (first_index(s, x) < 0 || j < first_index(s, x)) implies s[j] != x by {
            if j < t.len() {
                assert(t[j] == s[j]);
            }
        }
    }
}

/// `last_index` is the position of the last occurrence, -1 when there is none.
pub proof fn lemma_last_index<T>(s: Seq<T>, x: T)
    ensures
        -1 <= last_index(s, x) < s.len(),
        last_index(s, x) >= 0 ==> s[last_index(s, x)] == x,
        forall|j: int| 0 <= j < s.len() && j > last_index(s, x) ==> s[j] != x,
    decreases s.len(),
{
    if s.len() > 0 {
        let t = s.drop_last();
        lemma_last_index(t, x);
        assert forall|j: int| 0 <= j < s.len() && j > last_index(s, x) implies s[j] != x by {
            if j < t.len() {
                assert(t[j] == s[j]);
            }
        }
        if last_index(s, x) >= 0 && last_index(s, x) < t.len() {
            assert(t[last_index(s, x)] == s[last_index(s, x)]);
        }
    }
}

/// The register of constant `c`: its place in the pool, where it is already,
/// else a new place at the end.
pub open spec fn const_reg(st: Lowering, c: ConstRef) -> Result<(VReg, Lowering), Fault> {
    let k = first_index(st.pool, c);
    if k >= 0 {
        Ok((VReg::Const(k as u32), st))
    } else if st.pool.len() < u32::MAX {
        Ok((VReg::Const(st.pool.len() as u32), Lowering { code: st.code, pool: st.pool.push(c), next: st.next }))
    } else {
        Err(Fault::Overflow)
    }
}

/// Emits one instruction writing the next temporary.
pub open spec fn emit(st: Lowering, kind: VKind, reads: Seq<VReg>) -> Result<(VReg, Lowering), Fault> {
    if st.next < u32::MAX {
        let d = VReg::Temp(st.next as u32);
        Ok((d, Lowering { code: st.code.push(VModel { kind, dest: d, reads }), pool: st.pool, next: st.next + 1 }))
    } else {
        Err(Fault::Overflow)
    }
}

/// A symbol: the parameter of that name (the last one, where a name is given
/// twice), else the named constant, else unbound.
pub open spec fn symbol_reg(s: Seq<char>, ps: Seq<Seq<char>>, ns: Seq<Seq<char>>, st: Lowering) -> Result<(VReg, Lowering), Fault> {
    let p = last_index(ps, s);
    let c = first_index(ns, s);
    if p >= 0 {
        if p <= u32::MAX {
            Ok((VReg::Param(p as u32), st))
        } else {
            Err(Fault::Overflow)
        }
    } else if c >= 0 {
        if c <= u32::MAX {
            const_reg(st, ConstRef::Named(c as u32))
        } else {
            Err(Fault::Overflow)
        }
    } else {
        Err(Fault::Unbound(s))
    }
}

/// The sum of registers: 0 for none, the register itself for one.
pub open spec fn add_of(vs: Seq<VReg>, st: Lowering) -> Result<(VReg, Lowering), Fault> {
    if vs.len() == 0 {
        const_reg(st, ConstRef::Number(int_num(0)))
    } else if vs.len() == 1 {
        Ok((vs[0], st))
    } else if vs.len() == 2 {
        emit(st, VKind::Add2, vs)
    } else {
        emit(st, VKind::Add, vs)
    }
}

/// The product of registers: 1 for none, the register itself for one.
pub open spec fn mul_of(vs: Seq<VReg>, st: Lowering) -> Result<(VReg, Lowering), Fault> {
    if vs.len() == 0 {
        const_reg(st, ConstRef::Number(int_num(1)))
    } else if vs.len() == 1 {
        Ok((vs[0], st))
    } else if vs.len() == 2 {
        emit(st, VKind::Mul2, vs)
    } else {
        emit(st, VKind::Mul, vs)
    }
}

/// Whether a term is a literal number.
pub open spec fn is_lit(t: Term) -> bool {
    t is Num
}

/// Whether a term is the literal 1.
pub open spec fn is_one(t: Term) -> bool {
    t matches Term::Num(n) && n.mant() == 1 && n.places() == 0
}

/// The registers of the factors that are not literal numbers, in order.
pub open spec fn var_regs(fs: Seq<Term>, vs: Seq<VReg>) -> Seq<VReg>
    decreases fs.len(),
{
    if fs.len() == 0 {
        Seq::empty()
    } else {
        let k = fs.len() - 1;
        var_regs(fs.drop_last(), vs.drop_last()) + (if is_lit(fs[k]) { Seq::empty() } else { seq![vs[k]] })
    }
}

/// The registers of the literal factors other than 1, in order.
pub open spec fn lit_regs(fs: Seq<Term>, vs: Seq<VReg>) -> Seq<VReg>
    decreases fs.len(),
{
    if fs.len() == 0 {
        Seq::empty()
    } else {
        let k = fs.len() - 1;
        lit_regs(fs.drop_last(), vs.drop_last()) + (if is_lit(fs[k]) && !is_one(fs[k]) { seq![vs[k]] } else { Seq::empty() })
    }
}

/// A product of factors compiled to `vs`. Two factors of which one is a
/// literal multiply in their own order, or give the other where the literal is
/// 1; otherwise the other factors come first and the literals other than 1
/// after them.
pub open spec fn prod_of(fs: Seq<Term>, vs: Seq<VReg>, st: Lowering) -> Result<(VReg, Lowering), Fault> {
    if fs.len() == 2 && is_lit(fs[0]) && !is_lit(fs[1]) {
        if is_one(fs[0]) { Ok((vs[1], st)) } else { emit(st, VKind::Mul2, vs) }
    } else if fs.len() == 2 && !is_lit(fs[0]) && is_lit(fs[1]) {
        if is_one(fs[1]) { Ok((vs[0], st)) } else { emit(st, VKind::Mul2, vs) }
    } else {
        mul_of(var_regs(fs, vs) + lit_regs(fs, vs), st)
    }
}

/// A power of `vb` to the exponent `e`, compiled to `ve`. A literal exponent
/// chooses a dedicated instruction: small integers, other integers that fit
/// in `i32`, and the halves 1/2, -1/2, 3/2, -3/2.
pub open spec fn pow_of(e: Term, vb: VReg, ve: VReg, st: Lowering) -> Result<(VReg, Lowering), Fault> {
    match e {
        Term::Num(n) => {
            let k = n.mant();
            if n.places() == 0 {
                if k == 0 {
                    const_reg(st, ConstRef::Number(int_num(1)))
                } else if k == 1 {
                    Ok((vb, st))
                } else if k == 2 {
                    emit(st, VKind::Square, seq![vb])
                } else if k == 3 {
                    emit(st, VKind::Cube, seq![vb])
                } else if k == 4 {
                    emit(st, VKind::Pow4, seq![vb])
                } else if k == -1 {
                    emit(st, VKind::Recip, seq![vb])
                } else if k == -2 {
                    emit(st, VKind::InvSquare, seq![vb])
                } else if k == -3 {
                    emit(st, VKind::InvCube, seq![vb])
                } else if i32::MIN <= k <= i32::MAX {
                    emit(st, VKind::Powi(k as i32), seq![vb])
                } else {
                    emit(st, VKind::Pow, seq![vb, ve])
                }
            } else if n.places() == 1 && k == 5 {
                emit(st, VKind::BuiltinFun(FnOp::Sqrt), seq![vb])
            } else if n.places() == 1 && k == -5 {
                emit(st, VKind::InvSqrt, seq![vb])
            } else if n.places() == 1 && k == 15 {
                emit(st, VKind::Pow3_2, seq![vb])
            } else if n.places() == 1 && k == -15 {
                emit(st, VKind::InvPow3_2, seq![vb])
            } else {
                emit(st, VKind::Pow, seq![vb, ve])
            }
        },
        _ => emit(st, VKind::Pow, seq![vb, ve]),
    }
}

/// A function call on arguments compiled to `vs`. A known function takes one
/// operation of one, two or more arguments (`log` of one argument is the
/// natural logarithm); `log2` and `log10` of one argument are `log` to the
/// base 2 and 10; any other call is unsupported.
pub open spec fn call_of(name: Seq<char>, vs: Seq<VReg>, st: Lowering) -> Result<(VReg, Lowering), Fault> {
    match fn_table(name) {
        Some(op) => {
            if vs.len() == 1 {
                if name == "log"@ {
                    emit(st, VKind::Builtin1(FnOp::Ln), vs)
                } else {
                    emit(st, VKind::Builtin1(op), vs)
                }
            } else if vs.len() == 2 {
                emit(st, VKind::Builtin2(op), vs)
            } else {
                emit(st, VKind::BuiltinFun(op), vs)
            }
        },
        None => {
            if vs.len() == 1 && (name == "log2"@ || name == "log10"@) {
                match const_reg(st, ConstRef::Number(int_num(if name == "log2"@ { 2 } else { 10 }))) {
                    Ok((c, st1)) => emit(st1, VKind::Builtin2(FnOp::Log), seq![c, vs[0]]),
                    Err(e) => Err(e),
                }
            } else {
                Err(Fault::Unsupported(name))
            }
        },
    }
}

/// Compiles a term, children first.
pub open spec fn lower(t: Term, ps: Seq<Seq<char>>, ns: Seq<Seq<char>>, st: Lowering) -> Result<(VReg, Lowering), Fault>
    decreases t,
{
    match t {
        Term::Num(n) => const_reg(st, ConstRef::Number(n)),
        Term::Sym(s) => symbol_reg(s, ps, ns, st),
        Term::Call(name, args) => match lower_all(args, ps, ns, st) {
            Ok((vs, st1)) => call_of(name, vs, st1),
            Err(e) => Err(e),
        },
        Term::Sum(ts) => match lower_all(ts, ps, ns, st) {
            Ok((vs, st1)) => add_of(vs, st1),
            Err(e) => Err(e),
        },
        Term::Prod(fs) => match lower_all(fs, ps, ns, st) {
            Ok((vs, st1)) => prod_of(fs, vs, st1),
            Err(e) => Err(e),
        },
        Term::Div(a, b) => match lower(*a, ps, ns, st) {
            Ok((va, st1)) => match lower(*b, ps, ns, st1) {
                Ok((vb, st2)) => emit(st2, VKind::Div, seq![va, vb]),
                Err(e) => Err(e),
            },
            Err(e) => Err(e),
        },
        Term::Pow(a, b) => match lower(*a, ps, ns, st) {
            Ok((va, st1)) => match lower(*b, ps, ns, st1) {
                Ok((vb, st2)) => pow_of(*b, va, vb, st2),
                Err(e) => Err(e),
            },
            Err(e) => Err(e),
        },
        Term::Deriv(inner, _, _) => match lower(*inner, ps, ns, st) {
            Ok(_) => Err(Fault::Derivative),
            Err(e) => Err(e),
        },
    }
}

/// Compiles terms left to right.
pub open spec fn lower_all(ts: Seq<Term>, ps: Seq<Seq<char>>, ns: Seq<Seq<char>>, st: Lowering) -> Result<(Seq<VReg>, Lowering), Fault>
    decreases ts,
{
    if ts.len() == 0 {
        Ok((Seq::empty(), st))
    } else {
        match lower_all(ts.drop_last(), ps, ns, st) {
            Ok((vs, st1)) => match lower(ts[ts.len() - 1], ps, ns, st1) {
                Ok((v, st2)) => Ok((vs.push(v), st2)),
                Err(e) => Err(e),
            },
            Err(e) => Err(e),
        }
    }
}

/// The state compilation starts from: no code, the pool holding 0.
pub open spec fn initial_lowering() -> Lowering {
    Lowering { code: Seq::empty(), pool: seq![ConstRef::Number(int_num(0))], next: 0 }
}

/// The compilation of `t` with parameters `ps` and named constants `ns`: the
/// result register and the final state, or the first error.
pub open spec fn vir_of(t: Term, ps: Seq<Seq<char>>, ns: Seq<Seq<char>>) -> Result<(VReg, Lowering), Fault> {
    lower(t, ps, ns, initial_lowering())
}

/// The operation a function name stands for, where the evaluator has one.
pub open spec fn fn_table(name: Seq<char>) -> Option<FnOp> {
    if name == "sin"@ {
        Some(FnOp::Sin)
    } else if name == "cos"@ {
        Some(FnOp::Cos)
    } else if name == "tan"@ {
        Some(FnOp::Tan)
    } else if name == "cot"@ {
        Some(FnOp::Cot)
    } else if name == "sec"@ {
        Some(FnOp::Sec)
    } else if name == "csc"@ {
        Some(FnOp::Csc)
    } else if name == "asin"@ {
        Some(FnOp::Asin)
    } else if name == "acos"@ {
        Some(FnOp::Acos)
    } else if name == "atan"@ {
        Some(FnOp::Atan)
    } else if name == "acot"@ {
        Some(FnOp::Acot)
    } else if name == "asec"@ {
        Some(FnOp::Asec)
    } else if name == "acsc"@ {
        Some(FnOp::Acsc)
    } else if name == "sinh"@ {
        Some(FnOp::Sinh)
    } else if name == "cosh"@ {
        Some(FnOp::Cosh)
    } else if name == "tanh"@ {
        Some(FnOp::Tanh)
    } else if name == "coth"@ {
        Some(FnOp::Coth)
    } else if name == "sech"@ {
        Some(FnOp::Sech)
    } else if name == "csch"@ {
        Some(FnOp::Csch)
    } else if name == "asinh"@ {
        Some(FnOp::Asinh)
    } else if name == "acosh"@ {
        Some(FnOp::Acosh)
    } else if name == "atanh"@ {
        Some(FnOp::Atanh)
    } else if name == "acoth"@ {
        Some(FnOp::Acoth)
    } else if name == "acsch"@ {
        Some(FnOp::Acsch)
    } else if name == "asech"@ {
        Some(FnOp::Asech)
    } else if name == "exp"@ {
        Some(FnOp::Exp)
    } else if name == "ln"@ {
        Some(FnOp::Ln)
    } else if name == "sqrt"@ {
        Some(FnOp::Sqrt)
    } else if name == "cbrt"@ {
        Some(FnOp::Cbrt)
    } else if name == "abs"@ {
        Some(FnOp::Abs)
    } else if name == "signum"@ {
        Some(FnOp::Signum)
    } else if name == "sign"@ {
        Some(FnOp::Signum)
    } else if name == "sgn"@ {
        Some(FnOp::Signum)
    } else if name == "floor"@ {
        Some(FnOp::Floor)
    } else if name == "ceil"@ {
        Some(FnOp::Ceil)
    } else if name == "round"@ {
        Some(FnOp::Round)
    } else if name == "erf"@ {
        Some(FnOp::Erf)
    } else if name == "erfc"@ {
        Some(FnOp::Erfc)
    } else if name == "gamma"@ {
        Some(FnOp::Gamma)
    } else if name == "digamma"@ {
        Some(FnOp::Digamma)
    } else if name == "trigamma"@ {
        Some(FnOp::Trigamma)
    } else if name == "tetragamma"@ {
        Some(FnOp::Tetragamma)
    } else if name == "sinc"@ {
        Some(FnOp::Sinc)
    } else if name == "lambertw"@ {
        Some(FnOp::LambertW)
    } else if name == "elliptic_k"@ {
        Some(FnOp::EllipticK)
    } else if name == "elliptic_e"@ {
        Some(FnOp::EllipticE)
    } else if name == "zeta"@ {
        Some(FnOp::Zeta)
    } else if name == "exp_polar"@ {
        Some(FnOp::ExpPolar)
    } else if name == "atan2"@ {
        Some(FnOp::Atan2)
    } else if name == "log"@ {
        Some(FnOp::Log)
    } else if name == "besselj"@ {
        Some(FnOp::BesselJ)
    } else if name == "bessely"@ {
        Some(FnOp::BesselY)
    } else if name == "besseli"@ {
        Some(FnOp::BesselI)
    } else if name == "besselk"@ {
        Some(FnOp::BesselK)
    } else if name == "polygamma"@ {
        Some(FnOp::Polygamma)
    } else if name == "beta"@ {
        Some(FnOp::Beta)
    } else if name == "zeta_deriv"@ {
        Some(FnOp::ZetaDeriv)
    } else if name == "hermite"@ {
        Some(FnOp::Hermite)
    } else if name == "assoc_legendre"@ {
        Some(FnOp::AssocLegendre)
    } else if name == "spherical_harmonic"@ {
        Some(FnOp::SphericalHarmonic)
    } else if name == "ynm"@ {
        Some(FnOp::SphericalHarmonic)
    } else {
        None
    }
}

/// Looks a function name up in the table of operations.
fn fn_lookup(name: &String) -> (r: Option<FnOp>)
    ensures
        r == fn_table(name@),
{
    if string_is(name, "sin") {
        Some(FnOp::Sin)
    } else if string_is(name, "cos") {
        Some(FnOp::Cos)
    } else if string_is(name, "tan") {
        Some(FnOp::Tan)
    } else if string_is(name, "cot") {
        Some(FnOp::Cot)
    } else if string_is(name, "sec") {
        Some(FnOp::Sec)
    } else if string_is(name, "csc") {
        Some(FnOp::Csc)
    } else if string_is(name, "asin") {
        Some(FnOp::Asin)
    } else if string_is(name, "acos") {
        Some(FnOp::Acos)
    } else if string_is(name, "atan") {
        Some(FnOp::Atan)
    } else if string_is(name, "acot") {
        Some(FnOp::Acot)
    } else if string_is(name, "asec") {
        Some(FnOp::Asec)
    } else if string_is(name, "acsc") {
        Some(FnOp::Acsc)
    } else if string_is(name, "sinh") {
        Some(FnOp::Sinh)
    } else if string_is(name, "cosh") {
        Some(FnOp::Cosh)
    } else if string_is(name, "tanh") {
        Some(FnOp::Tanh)
    } else if string_is(name, "coth") {
        Some(FnOp::Coth)
    } else if string_is(name, "sech") {
        Some(FnOp::Sech)
    } else if string_is(name, "csch") {
        Some(FnOp::Csch)
    } else if string_is(name, "asinh") {
        Some(FnOp::Asinh)
    } else if string_is(name, "acosh") {
        Some(FnOp::Acosh)
    } else if string_is(name, "atanh") {
        Some(FnOp::Atanh)
    } else if string_is(name, "acoth") {
        Some(FnOp::Acoth)
    } else if string_is(name, "acsch") {
        Some(FnOp::Acsch)
    } else if string_is(name, "asech") {
        Some(FnOp::Asech)
    } else if string_is(name, "exp") {
        Some(FnOp::Exp)
    } else if string_is(name, "ln") {
        Some(FnOp::Ln)
    } else if string_is(name, "sqrt") {
        Some(FnOp::Sqrt)
    } else if string_is(name, "cbrt") {
        Some(FnOp::Cbrt)
    } else if string_is(name, "abs") {
        Some(FnOp::Abs)
    } else if string_is(name, "signum") {
        Some(FnOp::Signum)
    } else if string_is(name, "sign") {
        Some(FnOp::Signum)
    } else if string_is(name, "sgn") {
        Some(FnOp::Signum)
    } else if string_is(name, "floor") {
        Some(FnOp::Floor)
    } else if string_is(name, "ceil") {
        Some(FnOp::Ceil)
    } else if string_is(name, "round") {
        Some(FnOp::Round)
    } else if string_is(name, "erf") {
        Some(FnOp::Erf)
    } else if string_is(name, "erfc") {
        Some(FnOp::Erfc)
    } else if string_is(name, "gamma") {
        Some(FnOp::Gamma)
    } else if string_is(name, "digamma") {
        Some(FnOp::Digamma)
    } else if string_is(name, "trigamma") {
        Some(FnOp::Trigamma)
    } else if string_is(name, "tetragamma") {
        Some(FnOp::Tetragamma)
    } else if string_is(name, "sinc") {
        Some(FnOp::Sinc)
    } else if string_is(name, "lambertw") {
        Some(FnOp::LambertW)
    } else if string_is(name, "elliptic_k") {
        Some(FnOp::EllipticK)
    } else if string_is(name, "elliptic_e") {
        Some(FnOp::EllipticE)
    } else if string_is(name, "zeta") {
        Some(FnOp::Zeta)
    } else if string_is(name, "exp_polar") {
        Some(FnOp::ExpPolar)
    } else if string_is(name, "atan2") {
        Some(FnOp::Atan2)
    } else if string_is(name, "log") {
        Some(FnOp::Log)
    } else if string_is(name, "besselj") {
        Some(FnOp::BesselJ)
    } else if string_is(name, "bessely") {
        Some(FnOp::BesselY)
    } else if string_is(name, "besseli") {
        Some(FnOp::BesselI)
    } else if string_is(name, "besselk") {
        Some(FnOp::BesselK)
    } else if string_is(name, "polygamma") {
        Some(FnOp::Polygamma)
    } else if string_is(name, "beta") {
        Some(FnOp::Beta)
    } else if string_is(name, "zeta_deriv") {
        Some(FnOp::ZetaDeriv)
    } else if string_is(name, "hermite") {
        Some(FnOp::Hermite)
    } else if string_is(name, "assoc_legendre") {
        Some(FnOp::AssocLegendre)
    } else if string_is(name, "spherical_harmonic") {
        Some(FnOp::SphericalHarmonic)
    } else if string_is(name, "ynm") {
        Some(FnOp::SphericalHarmonic)
    } else {
        None
    }
}

/// The texts of a list of strings.
pub open spec fn names_of(v: Seq<String>) -> Seq<Seq<char>> {
    v.map_values(|s: String| s@)
}

/// The models of a list of instructions.
pub open spec fn models_of(v: Seq<VInstruction>) -> Seq<VModel> {
    v.map_values(|i: VInstruction| vmodel(i))
}

/// Whether an executable step agrees with the step the model takes, the
/// state afterwards being `after`.
pub open spec fn agrees<T>(r: Result<T, CompileError>, m: Result<(T, Lowering), Fault>, after: Lowering) -> bool {
    match r {
        Ok(v) => m == Ok::<(T, Lowering), Fault>((v, after)),
        Err(e) => m == Err::<(T, Lowering), Fault>(e@),
    }
}

/// An expression compiled to instructions over virtual registers.
pub struct VirProgram {
    /// The instructions, in order.
    pub instrs: Vec<VInstruction>,
    /// The register holding the value of the expression.
    pub result: VReg,
    /// What each constant register holds.
    pub pool: Vec<ConstRef>,
    /// One past the last temporary.
    pub next_temp: u32,
}

struct Lowerer {
    code: Vec<VInstruction>,
    pool: Vec<ConstRef>,
    next: u32,
}

impl Lowerer {
    spec fn state(&self) -> Lowering {
        Lowering { code: models_of(self.code@), pool: self.pool@, next: self.next as nat }
    }

    fn const_reg_exec(&mut self, c: ConstRef) -> (r: Result<VReg, CompileError>)
        ensures
            agrees(r, const_reg(old(self).state(), c), final(self).state()),
    {
        proof {
            lemma_first_index(self.pool@, c);
        }
        let mut k: usize = 0;
        while k < self.pool.len()
            invariant
                k <= self.pool@.len(),
                forall|j: int| 0 <= j < k ==> self.pool@[j] != c,
            decreases self.pool.len() - k,
        {
            if self.pool[k] == c {
                proof {
                    lemma_first_index(self.pool@, c);
                }
                return Ok(VReg::Const(k as u32));
            }
            k = k + 1;
        }
        proof {
            lemma_first_index(self.pool@, c);
        }
        if self.pool.len() < u32::MAX as usize {
            let n = self.pool.len() as u32;
            self.pool.push(c);
            Ok(VReg::Const(n))
        } else {
            Err(CompileError::RegisterOverflow)
        }
    }

    fn emit_exec(&mut self, i: VInstruction) -> (r: Result<VReg, CompileError>)
        requires
            vdest_of(i) == VReg::Temp(old(self).next),
        ensures
            agrees(r, emit(old(self).state(), vkind(i), vreads_of(i)), final(self).state()),
    {
        if self.next == u32::MAX {
            return Err(CompileError::RegisterOverflow);
        }
        let d = VReg::Temp(self.next);
        let ghost before = self.code@;
        self.code.push(i);
        self.next = self.next + 1;
        proof {
            assert(models_of(self.code@) =~= models_of(before).push(vmodel(i)));
        }
        Ok(d)
    }

    fn symbol_exec(&mut self, s: &String, ps: &Vec<String>, ns: &Vec<String>) -> (r: Result<VReg, CompileError>)
        ensures
            agrees(r, symbol_reg(s@, names_of(ps@), names_of(ns@), old(self).state()), final(self).state()),
    {
        proof {
            lemma_last_index(names_of(ps@), s@);
            lemma_first_index(names_of(ns@), s@);
        }
        let mut k: usize = ps.len();
        while k > 0
            invariant
                k <= ps@.len(),
                forall|j: int| k <= j < ps@.len() ==> names_of(ps@)[j] != s@,
            decreases k,
        {
            if ps[k - 1] == *s {
                assert(names_of(ps@)[k - 1] == s@);
                proof {
                    lemma_last_index(names_of(ps@), s@);
                }
                if k - 1 > u32::MAX as usize {
                    return Err(CompileError::RegisterOverflow);
                }
                return Ok(VReg::Param((k - 1) as u32));
            }
            k = k - 1;
        }
        proof {
            lemma_last_index(names_of(ps@), s@);
        }
        let mut c: usize = 0;
        while c < ns.len()
            invariant
                c <= ns@.len(),
                forall|j: int| 0 <= j < c ==> names_of(ns@)[j] != s@,
                last_index(names_of(ps@), s@) < 0,
                self.state() == old(self).state(),
            decreases ns.len() - c,
        {
            if ns[c] == *s {
                assert(names_of(ns@)[c as int] == s@);
                proof {
                    lemma_first_index(names_of(ns@), s@);
                    assert(first_index(names_of(ns@), s@) == c);
                    assert(last_index(names_of(ps@), s@) < 0);
                }
                if c > u32::MAX as usize {
                    return Err(CompileError::RegisterOverflow);
                }
                return self.const_reg_exec(ConstRef::Named(c as u32));
            }
            c = c + 1;
        }
        proof {
            lemma_first_index(names_of(ns@), s@);
        }
        Err(CompileError::UnboundVariable(s.clone()))
    }
}

impl Lowerer {
    fn add_exec(&mut self, vs: Vec<VReg>) -> (r: Result<VReg, CompileError>)
        ensures
            agrees(r, add_of(vs@, old(self).state()), final(self).state()),
    {
        if vs.len() == 0 {
            self.const_reg_exec(ConstRef::Number(Num::integer(0)))
        } else if vs.len() == 1 {
            Ok(vs[0])
        } else if vs.len() == 2 {
            let (a, b) = (vs[0], vs[1]);
            proof { assert(seq![a, b] =~= vs@); }
            self.emit_exec(VInstruction::Add2 { dest: VReg::Temp(self.next), a, b })
        } else {
            self.emit_exec(VInstruction::Add { dest: VReg::Temp(self.next), srcs: vs })
        }
    }

    fn mul_exec(&mut self, vs: Vec<VReg>) -> (r: Result<VReg, CompileError>)
        ensures
            agrees(r, mul_of(vs@, old(self).state()), final(self).state()),
    {
        if vs.len() == 0 {
            self.const_reg_exec(ConstRef::Number(Num::integer(1)))
        } else if vs.len() == 1 {
            Ok(vs[0])
        } else if vs.len() == 2 {
            let (a, b) = (vs[0], vs[1]);
            proof { assert(seq![a, b] =~= vs@); }
            self.emit_exec(VInstruction::Mul2 { dest: VReg::Temp(self.next), a, b })
        } else {
            self.emit_exec(VInstruction::Mul { dest: VReg::Temp(self.next), srcs: vs })
        }
    }

    fn call_exec(&mut self, name: &String, vs: Vec<VReg>) -> (r: Result<VReg, CompileError>)
        ensures
            agrees(r, call_of(name@, vs@, old(self).state()), final(self).state()),
    {
        match fn_lookup(name) {
            Some(op) => {
                if vs.len() == 1 {
                    let a = vs[0];
                    proof { assert(seq![a] =~= vs@); }
                    if string_is(name, "log") {
                        self.emit_exec(VInstruction::Builtin1 { dest: VReg::Temp(self.next), op: FnOp::Ln, arg: a })
                    } else {
                        self.emit_exec(VInstruction::Builtin1 { dest: VReg::Temp(self.next), op, arg: a })
                    }
                } else if vs.len() == 2 {
                    let (a, b) = (vs[0], vs[1]);
                    proof { assert(seq![a, b] =~= vs@); }
                    self.emit_exec(VInstruction::Builtin2 { dest: VReg::Temp(self.next), op, arg1: a, arg2: b })
                } else {
                    self.emit_exec(VInstruction::BuiltinFun { dest: VReg::Temp(self.next), op, args: vs })
                }
            },
            None => {
                let is2 = string_is(name, "log2");
                let is10 = string_is(name, "log10");
                if vs.len() == 1 && (is2 || is10) {
                    let base = if is2 { Num::integer(2) } else { Num::integer(10) };
                    let c = match self.const_reg_exec(ConstRef::Number(base)) {
                        Ok(c) => c,
                        Err(e) => return Err(e),
                    };
                    self.emit_exec(VInstruction::Builtin2 { dest: VReg::Temp(self.next), op: FnOp::Log, arg1: c, arg2: vs[0] })
                } else {
                    Err(CompileError::UnsupportedFunction(name.clone()))
                }
            },
        }
    }

    fn pow_exec(&mut self, e: &Expr, vb: VReg, ve: VReg) -> (r: Result<VReg, CompileError>)
        ensures
            agrees(r, pow_of(e@, vb, ve, old(self).state()), final(self).state()),
    {
        match &e.kind {
            ExprKind::Number(n) => {
                let k = n.mantissa();
                let p = n.scale();
                if p == 0 {
                    if k == 0 {
                        self.const_reg_exec(ConstRef::Number(Num::integer(1)))
                    } else if k == 1 {
                        Ok(vb)
                    } else if k == 2 {
                        self.emit_exec(VInstruction::Square { dest: VReg::Temp(self.next), src: vb })
                    } else if k == 3 {
                        self.emit_exec(VInstruction::Cube { dest: VReg::Temp(self.next), src: vb })
                    } else if k == 4 {
                        self.emit_exec(VInstruction::Pow4 { dest: VReg::Temp(self.next), src: vb })
                    } else if k == -1 {
                        self.emit_exec(VInstruction::Recip { dest: VReg::Temp(self.next), src: vb })
                    } else if k == -2 {
                        self.emit_exec(VInstruction::InvSquare { dest: VReg::Temp(self.next), src: vb })
                    } else if k == -3 {
                        self.emit_exec(VInstruction::InvCube { dest: VReg::Temp(self.next), src: vb })
                    } else if i32::MIN as i64 <= k && k <= i32::MAX as i64 {
                        self.emit_exec(VInstruction::Powi { dest: VReg::Temp(self.next), src: vb, n: k as i32 })
                    } else {
                        self.emit_exec(VInstruction::Pow { dest: VReg::Temp(self.next), base: vb, exp: ve })
                    }
                } else if p == 1 && k == 5 {
                    let mut args: Vec<VReg> = Vec::new();
                    args.push(vb);
                    proof { assert(args@ =~= seq![vb]); }
                    self.emit_exec(VInstruction::BuiltinFun { dest: VReg::Temp(self.next), op: FnOp::Sqrt, args })
                } else if p == 1 && k == -5 {
                    self.emit_exec(VInstruction::InvSqrt { dest: VReg::Temp(self.next), src: vb })
                } else if p == 1 && k == 15 {
                    self.emit_exec(VInstruction::Pow3_2 { dest: VReg::Temp(self.next), src: vb })
                } else if p == 1 && k == -15 {
                    self.emit_exec(VInstruction::InvPow3_2 { dest: VReg::Temp(self.next), src: vb })
                } else {
                    self.emit_exec(VInstruction::Pow { dest: VReg::Temp(self.next), base: vb, exp: ve })
                }
            },
            _ => self.emit_exec(VInstruction::Pow { dest: VReg::Temp(self.next), base: vb, exp: ve }),
        }
    }

    fn prod_exec(&mut self, fs: &Vec<Expr>, vs: Vec<VReg>) -> (r: Result<VReg, CompileError>)
        requires
            vs@.len() == fs@.len(),
        ensures
            agrees(r, prod_of(terms_of(fs@), vs@, old(self).state()), final(self).state()),
    {
        let ghost ts = terms_of(fs@);
        proof { lemma_terms_of(fs@); }
        if fs.len() == 2 {
            let l0 = is_lit_exec(&fs[0]);
            let l1 = is_lit_exec(&fs[1]);
            if l0 && !l1 {
                if is_one_exec(&fs[0]) {
                    return Ok(vs[1]);
                }
                return self.mul_exec(vs);
            } else if !l0 && l1 {
                if is_one_exec(&fs[1]) {
                    return Ok(vs[0]);
                }
                return self.mul_exec(vs);
            }
        }
        let mut vars: Vec<VReg> = Vec::new();
        let mut lits: Vec<VReg> = Vec::new();
        let mut i: usize = 0;
        while i < fs.len()
            invariant
                i <= fs@.len(),
                vs@.len() == fs@.len(),
                ts == terms_of(fs@),
                ts.len() == fs@.len(),
                forall|j: int| 0 <= j < fs@.len() ==> #[trigger] ts[j] == fs@[j].term(),
                vars@ == var_regs(ts.take(i as int), vs@.take(i as int)),
                lits@ == lit_regs(ts.take(i as int), vs@.take(i as int)),
            decreases fs.len() - i,
        {
            proof {
                assert(ts.take(i + 1).drop_last() =~= ts.take(i as int));
                assert(vs@.take(i + 1).drop_last() =~= vs@.take(i as int));
                assert(ts.take(i + 1)[i as int] == ts[i as int]);
                assert(vs@.take(i + 1)[i as int] == vs@[i as int]);
            }
            let lit = is_lit_exec(&fs[i]);
            if !lit {
                vars.push(vs[i]);
            } else if !is_one_exec(&fs[i]) {
                lits.push(vs[i]);
            }
            proof {
                let a = var_regs(ts.take(i + 1), vs@.take(i + 1));
                let b = lit_regs(ts.take(i + 1), vs@.take(i + 1));
                assert(vars@ =~= a);
                assert(lits@ =~= b);
            }
            i = i + 1;
        }
        proof {
            assert(ts.take(fs@.len() as int) =~= ts);
            assert(vs@.take(fs@.len() as int) =~= vs@);
        }
        let mut all = vars;
        let mut lits2 = lits;
        all.append(&mut lits2);
        self.mul_exec(all)
    }
}

/// Whether an expression is a literal number.
fn is_lit_exec(e: &Expr) -> (r: bool)
    ensures
        r == is_lit(e@),
{
    match &e.kind {
        ExprKind::Number(_) => true,
        _ => false,
    }
}

/// Whether an expression is the literal 1.
fn is_one_exec(e: &Expr) -> (r: bool)
    ensures
        r == is_one(e@),
{
    match &e.kind {
        ExprKind::Number(n) => n.is_int(1),
        _ => false,
    }
}

/// A failure while compiling the first `k` terms is the failure of the whole list.
proof fn lemma_lower_all_fails(ts: Seq<Term>, k: int, ps: Seq<Seq<char>>, ns: Seq<Seq<char>>, st: Lowering)
    requires
        0 <= k <= ts.len(),
        lower_all(ts.take(k), ps, ns, st) is Err,
    ensures
        lower_all(ts, ps, ns, st) == lower_all(ts.take(k), ps, ns, st),
    decreases ts.len() - k,
{
    if k < ts.len() {
        assert(ts.take(k + 1).drop_last() =~= ts.take(k));
        lemma_lower_all_fails(ts, k + 1, ps, ns, st);
    } else {
        assert(ts.take(k) =~= ts);
    }
}

impl Lowerer {
    #[verifier::loop_isolation(false)]
    fn lower_list(&mut self, v: &Vec<Expr>, ps: &Vec<String>, ns: &Vec<String>) -> (r: Result<Vec<VReg>, CompileError>)
        ensures
            match r {
                Ok(vs) => lower_all(terms_of(v@), names_of(ps@), names_of(ns@), old(self).state())
                    == Ok::<(Seq<VReg>, Lowering), Fault>((vs@, final(self).state())),
                Err(e) => lower_all(terms_of(v@), names_of(ps@), names_of(ns@), old(self).state())
                    == Err::<(Seq<VReg>, Lowering), Fault>(e@),
            },
        decreases v,
    {
        let ghost ts = terms_of(v@);
        let ghost pn = names_of(ps@);
        let ghost nn = names_of(ns@);
        let ghost st0 = self.state();
        proof {
            lemma_terms_of(v@);
            assert(ts.take(0) =~= Seq::<Term>::empty());
        }
        let mut out: Vec<VReg> = Vec::new();
        let mut i: usize = 0;
        while i < v.len()
            invariant
                i <= v@.len(),
                ts.len() == v@.len(),
                lower_all(ts.take(i as int), pn, nn, st0) == Ok::<(Seq<VReg>, Lowering), Fault>((out@, self.state())),
            decreases v.len() - i,
        {
            assert(decreases_to!(v => v@[i as int]));
            proof {
                assert(ts.take(i + 1).drop_last() =~= ts.take(i as int));
                assert(ts.take(i + 1)[i as int] == v@[i as int].term());
            }
            match self.lower_expr(&v[i], ps, ns) {
                Ok(x) => {
                    out.push(x);
                },
                Err(e) => {
                    proof {
                        lemma_lower_all_fails(ts, i + 1, pn, nn, st0);
                    }
                    return Err(e);
                },
            }
            i = i + 1;
        }
        proof {
            assert(ts.take(v@.len() as int) =~= ts);
        }
        Ok(out)
    }

    #[verifier::loop_isolation(false)]
    fn lower_expr(&mut self, e: &Expr, ps: &Vec<String>, ns: &Vec<String>) -> (r: Result<VReg, CompileError>)
        ensures
            agrees(r, lower(e@, names_of(ps@), names_of(ns@), old(self).state()), final(self).state()),
        decreases e,
    {
        match &e.kind {
            ExprKind::Number(n) => self.const_reg_exec(ConstRef::Number(*n)),
            ExprKind::Symbol(s) => self.symbol_exec(s, ps, ns),
            ExprKind::FunctionCall { name, args } => {
                let vs = match self.lower_list(args, ps, ns) {
                    Ok(vs) => vs,
                    Err(err) => return Err(err),
                };
                self.call_exec(name, vs)
            },
            ExprKind::Sum(ts) => {
                let vs = match self.lower_list(ts, ps, ns) {
                    Ok(vs) => vs,
                    Err(err) => return Err(err),
                };
                self.add_exec(vs)
            },
            ExprKind::Product(fs) => {
                let vs = match self.lower_list(fs, ps, ns) {
                    Ok(vs) => vs,
                    Err(err) => return Err(err),
                };
                proof {
                    lemma_lower_all_len(terms_of(fs@), names_of(ps@), names_of(ns@), old(self).state());
                    lemma_terms_of(fs@);
                }
                self.prod_exec(fs, vs)
            },
            ExprKind::Div(a, b) => {
                let va = match self.lower_expr(a, ps, ns) {
                    Ok(x) => x,
                    Err(err) => return Err(err),
                };
                let vb = match self.lower_expr(b, ps, ns) {
                    Ok(x) => x,
                    Err(err) => return Err(err),
                };
                self.emit_exec(VInstruction::Div { dest: VReg::Temp(self.next), num: va, den: vb })
            },
            ExprKind::Pow(a, b) => {
                let va = match self.lower_expr(a, ps, ns) {
                    Ok(x) => x,
                    Err(err) => return Err(err),
                };
                let vb = match self.lower_expr(b, ps, ns) {
                    Ok(x) => x,
                    Err(err) => return Err(err),
                };
                self.pow_exec(b, va, vb)
            },
            ExprKind::Derivative { inner, .. } => {
                match self.lower_expr(inner, ps, ns) {
                    Ok(_) => Err(CompileError::UnsupportedExpression),
                    Err(err) => Err(err),
                }
            },
        }
    }
}

/// Compiling terms gives one register per term.
proof fn lemma_lower_all_len(ts: Seq<Term>, ps: Seq<Seq<char>>, ns: Seq<Seq<char>>, st: Lowering)
    ensures
        lower_all(ts, ps, ns, st) matches Ok((vs, _)) ==> vs.len() == ts.len(),
    decreases ts.len(),
{
    if ts.len() > 0 {
        lemma_lower_all_len(ts.drop_last(), ps, ns, st);
    }
}

/// Compiles `expr` to instructions over virtual registers.
///
/// `params` are the parameters in register order; `named` are the symbols
/// that stand for known constants, such as `pi`. The result is exactly
/// `vir_of`: the first node that cannot be compiled, children before their
/// parent and left to right, gives the error.
pub fn compile_to_vir(expr: &Expr, params: &Vec<String>, named: &Vec<String>) -> (r: Result<VirProgram, CompileError>)
    ensures
        match r {
            Ok(p) => vir_of(expr@, names_of(params@), names_of(named@)) == Ok::<(VReg, Lowering), Fault>((
                p.result,
                Lowering { code: models_of(p.instrs@), pool: p.pool@, next: p.next_temp as nat },
            )),
            Err(e) => vir_of(expr@, names_of(params@), names_of(named@)) == Err::<(VReg, Lowering), Fault>(e@),
        },
{
    let mut pool: Vec<ConstRef> = Vec::new();
    pool.push(ConstRef::Number(Num::integer(0)));
    let mut lw = Lowerer { code: Vec::new(), pool, next: 0 };
    proof {
        assert(lw.state().code =~= Seq::<VModel>::empty());
        assert(lw.state().pool =~= seq![ConstRef::Number(int_num(0))]);
        assert(lw.state() == initial_lowering());
    }
    match lw.lower_expr(expr, params, named) {
        Ok(v) => Ok(VirProgram { instrs: lw.code, result: v, pool: lw.pool, next_temp: lw.next }),
        Err(e) => Err(e),
    }
}

// ---------------------------------------------------------------------------
// Laws
// ---------------------------------------------------------------------------

/// Whether register `r` holds a value before the instruction at position `k`
/// runs: a parameter or a pooled constant that exists, or a temporary that an
/// earlier instruction wrote.
pub open spec fn defined_at(r: VReg, k: int, nparams: nat, npool: nat) -> bool {
    match r {
        VReg::Param(i) => i < nparams,
        VReg::Const(i) => i < npool,
        VReg::Temp(i) => i < k,
    }
}

/// Compiled code in which the instruction at position `k` writes temporary
/// `k`, and reads only registers defined before it.
pub open spec fn defined_code(st: Lowering, nparams: nat) -> bool {
    &&& st.next == st.code.len()
    &&& forall|k: int| 0 <= k < st.code.len() ==> #[trigger] st.code[k].dest == VReg::Temp(k as u32)
    &&& forall|k: int, q: int| 0 <= k < st.code.len() && 0 <= q < st.code[k].reads.len()
            ==> defined_at(#[trigger] st.code[k].reads[q], k, nparams, st.pool.len())
}

/// The state only grew.
pub open spec fn grew(st: Lowering, st2: Lowering) -> bool {
    st.code.len() <= st2.code.len() && st.pool.len() <= st2.pool.len()
}

/// Every register of `vs` is defined after the code of `st`.
pub open spec fn all_defined(vs: Seq<VReg>, st: Lowering, nparams: nat) -> bool {
    forall|j: int| 0 <= j < vs.len() ==> defined_at(#[trigger] vs[j], st.code.len() as int, nparams, st.pool.len())
}

/// What each step of compilation keeps: the code stays defined, the state
/// grows, and the register handed back is defined.
pub open spec fn step_defined(r: Result<(VReg, Lowering), Fault>, st: Lowering, np: nat) -> bool {
    r matches Ok((v, st2)) ==> defined_code(st2, np) && grew(st, st2) && defined_at(v, st2.code.len() as int, np, st2.pool.len())
}

proof fn lemma_const_reg_defined(st: Lowering, c: ConstRef, np: nat)
    requires
        defined_code(st, np),
    ensures
        step_defined(const_reg(st, c), st, np),
{
    lemma_first_index(st.pool, c);
}

proof fn lemma_emit_defined(st: Lowering, kind: VKind, reads: Seq<VReg>, np: nat)
    requires
        defined_code(st, np),
        all_defined(reads, st, np),
    ensures
        step_defined(emit(st, kind, reads), st, np),
{
    if st.next < u32::MAX {
        let st2 = emit(st, kind, reads)->Ok_0.1;
        assert forall|k: int, q: int| 0 <= k < st2.code.len() && 0 <= q < st2.code[k].reads.len()
            implies defined_at(#[trigger] st2.code[k].reads[q], k, np, st2.pool.len()) by {
            if k < st.code.len() {
                assert(st2.code[k] == st.code[k]);
            } else {
                assert(reads[q] == st2.code[k].reads[q]);
            }
        }
        assert forall|k: int| 0 <= k < st2.code.len() implies #[trigger] st2.code[k].dest == VReg::Temp(k as u32) by {
            if k < st.code.len() {
                assert(st2.code[k] == st.code[k]);
            }
        }
    }
}

proof fn lemma_defined_grows(vs: Seq<VReg>, st: Lowering, st2: Lowering, np: nat)
    requires
        all_defined(vs, st, np),
        grew(st, st2),
    ensures
        all_defined(vs, st2, np),
{
    assert forall|j: int| 0 <= j < vs.len() implies defined_at(#[trigger] vs[j], st2.code.len() as int, np, st2.pool.len()) by {
        assert(defined_at(vs[j], st.code.len() as int, np, st.pool.len()));
    }
}

proof fn lemma_factor_regs_from(fs: Seq<Term>, vs: Seq<VReg>, st: Lowering, np: nat)
    requires
        fs.len() == vs.len(),
        all_defined(vs, st, np),
    ensures
        all_defined(var_regs(fs, vs) + lit_regs(fs, vs), st, np),
    decreases fs.len(),
{
    if fs.len() > 0 {
        let k = fs.len() - 1;
        assert(all_defined(vs.drop_last(), st, np)) by {
            assert forall|j: int| 0 <= j < vs.drop_last().len() implies
                defined_at(#[trigger] vs.drop_last()[j], st.code.len() as int, np, st.pool.len()) by {
                assert(vs.drop_last()[j] == vs[j]);
            }
        }
        lemma_factor_regs_from(fs.drop_last(), vs.drop_last(), st, np);
        let a = var_regs(fs.drop_last(), vs.drop_last());
        let b = lit_regs(fs.drop_last(), vs.drop_last());
        let all = var_regs(fs, vs) + lit_regs(fs, vs);
        assert(defined_at(vs[k], st.code.len() as int, np, st.pool.len()));
        assert forall|j: int| 0 <= j < all.len() implies defined_at(#[trigger] all[j], st.code.len() as int, np, st.pool.len()) by {
            let va = var_regs(fs, vs);
            if j < va.len() {
                if j < a.len() {
                    assert(va[j] == a[j]);
                    assert((a + b)[j] == a[j]);
                } else {
                    assert(va[j] == vs[k]);
                }
            } else {
                let jb = j - va.len();
                let lb = lit_regs(fs, vs);
                assert(all[j] == lb[jb]);
                if jb < b.len() {
                    assert(lb[jb] == b[jb]);
                    assert((a + b)[a.len() + jb] == b[jb]);
                } else {
                    assert(lb[jb] == vs[k]);
                }
            }
        }
    }
}

proof fn lemma_lower_defined(t: Term, ps: Seq<Seq<char>>, ns: Seq<Seq<char>>, st: Lowering)
    requires
        defined_code(st, ps.len()),
    ensures
        step_defined(lower(t, ps, ns, st), st, ps.len()),
    decreases t,
{
    let np = ps.len();
    match t {
        Term::Num(n) => lemma_const_reg_defined(st, ConstRef::Number(n), np),
        Term::Sym(s) => {
            lemma_last_index(ps, s);
            let c = first_index(ns, s);
            if c >= 0 && c <= u32::MAX {
                lemma_const_reg_defined(st, ConstRef::Named(c as u32), np);
            }
        },
        Term::Call(name, args) => {
            lemma_lower_all_defined(args, ps, ns, st);
            if let Ok((vs, st1)) = lower_all(args, ps, ns, st) {
                call_defined(name, vs, st1, np);
            }
        },
        Term::Sum(ts) => {
            lemma_lower_all_defined(ts, ps, ns, st);
            if let Ok((vs, st1)) = lower_all(ts, ps, ns, st) {
                add_defined(vs, st1, np);
            }
        },
        Term::Prod(fs) => {
            lemma_lower_all_defined(fs, ps, ns, st);
            lemma_lower_all_len(fs, ps, ns, st);
            if let Ok((vs, st1)) = lower_all(fs, ps, ns, st) {
                lemma_factor_regs_from(fs, vs, st1, np);
                mul_defined(var_regs(fs, vs) + lit_regs(fs, vs), st1, np);
                if fs.len() == 2 {
                    lemma_emit_defined(st1, VKind::Mul2, vs, np);
                }
            }
        },
        Term::Div(a, b) => {
            lemma_lower_defined(*a, ps, ns, st);
            if let Ok((va, st1)) = lower(*a, ps, ns, st) {
                lemma_lower_defined(*b, ps, ns, st1);
                if let Ok((vb, st2)) = lower(*b, ps, ns, st1) {
                    assert(all_defined(seq![va, vb], st2, np));
                    lemma_emit_defined(st2, VKind::Div, seq![va, vb], np);
                }
            }
        },
        Term::Pow(a, b) => {
            lemma_lower_defined(*a, ps, ns, st);
            if let Ok((va, st1)) = lower(*a, ps, ns, st) {
                lemma_lower_defined(*b, ps, ns, st1);
                if let Ok((vb, st2)) = lower(*b, ps, ns, st1) {
                    pow_defined(*b, va, vb, st2, np);
                }
            }
        },
        Term::Deriv(inner, _, _) => {},
    }
}

proof fn lemma_lower_all_defined(ts: Seq<Term>, ps: Seq<Seq<char>>, ns: Seq<Seq<char>>, st: Lowering)
    requires
        defined_code(st, ps.len()),
    ensures
        lower_all(ts, ps, ns, st) matches Ok((vs, st2)) ==>
            defined_code(st2, ps.len()) && grew(st, st2) && all_defined(vs, st2, ps.len()),
    decreases ts,
{
    if ts.len() > 0 {
        lemma_lower_all_defined(ts.drop_last(), ps, ns, st);
        if let Ok((vs, st1)) = lower_all(ts.drop_last(), ps, ns, st) {
            lemma_lower_defined(ts[ts.len() - 1], ps, ns, st1);
            if let Ok((v, st2)) = lower(ts[ts.len() - 1], ps, ns, st1) {
                lemma_defined_grows(vs, st1, st2, ps.len());
                assert forall|j: int| 0 <= j < vs.push(v).len() implies
                    defined_at(#[trigger] vs.push(v)[j], st2.code.len() as int, ps.len(), st2.pool.len()) by {
                    if j < vs.len() {
                        assert(vs.push(v)[j] == vs[j]);
                    }
                }
            }
        }
    }
}

proof fn add_defined(vs: Seq<VReg>, st: Lowering, np: nat)
    requires
        defined_code(st, np),
        all_defined(vs, st, np),
    ensures
        step_defined(add_of(vs, st), st, np),
{
    lemma_const_reg_defined(st, ConstRef::Number(int_num(0)), np);
    lemma_emit_defined(st, VKind::Add2, vs, np);
    lemma_emit_defined(st, VKind::Add, vs, np);
}

proof fn mul_defined(vs: Seq<VReg>, st: Lowering, np: nat)
    requires
        defined_code(st, np),
        all_defined(vs, st, np),
    ensures
        step_defined(mul_of(vs, st), st, np),
{
    lemma_const_reg_defined(st, ConstRef::Number(int_num(1)), np);
    lemma_emit_defined(st, VKind::Mul2, vs, np);
    lemma_emit_defined(st, VKind::Mul, vs, np);
}

proof fn pow_defined(e: Term, vb: VReg, ve: VReg, st: Lowering, np: nat)
    requires
        defined_code(st, np),
        defined_at(vb, st.code.len() as int, np, st.pool.len()),
        defined_at(ve, st.code.len() as int, np, st.pool.len()),
    ensures
        step_defined(pow_of(e, vb, ve, st), st, np),
{
    assert(all_defined(seq![vb], st, np));
    assert(all_defined(seq![vb, ve], st, np));
    lemma_const_reg_defined(st, ConstRef::Number(int_num(1)), np);
    match e {
        Term::Num(n) => {
            let k = n.mant();
            lemma_emit_defined(st, VKind::Square, seq![vb], np);
            lemma_emit_defined(st, VKind::Cube, seq![vb], np);
            lemma_emit_defined(st, VKind::Pow4, seq![vb], np);
            lemma_emit_defined(st, VKind::Recip, seq![vb], np);
            lemma_emit_defined(st, VKind::InvSquare, seq![vb], np);
            lemma_emit_defined(st, VKind::InvCube, seq![vb], np);
            lemma_emit_defined(st, VKind::Powi(k as i32), seq![vb], np);
            lemma_emit_defined(st, VKind::Pow, seq![vb, ve], np);
            lemma_emit_defined(st, VKind::BuiltinFun(FnOp::Sqrt), seq![vb], np);
            lemma_emit_defined(st, VKind::InvSqrt, seq![vb], np);
            lemma_emit_defined(st, VKind::Pow3_2, seq![vb], np);
            lemma_emit_defined(st, VKind::InvPow3_2, seq![vb], np);
        },
        _ => lemma_emit_defined(st, VKind::Pow, seq![vb, ve], np),
    }
}

proof fn call_defined(name: Seq<char>, vs: Seq<VReg>, st: Lowering, np: nat)
    requires
        defined_code(st, np),
        all_defined(vs, st, np),
    ensures
        step_defined(call_of(name, vs, st), st, np),
{
    match fn_table(name) {
        Some(op) => {
            lemma_emit_defined(st, VKind::Builtin1(FnOp::Ln), vs, np);
            lemma_emit_defined(st, VKind::Builtin1(op), vs, np);
            lemma_emit_defined(st, VKind::Builtin2(op), vs, np);
            lemma_emit_defined(st, VKind::BuiltinFun(op), vs, np);
        },
        None => {
            let c = ConstRef::Number(int_num(if name == "log2"@ { 2 } else { 10 }));
            lemma_const_reg_defined(st, c, np);
            if vs.len() == 1 {
                if let Ok((r, st1)) = const_reg(st, c) {
                    lemma_defined_grows(vs, st, st1, np);
                    assert(all_defined(seq![r, vs[0]], st1, np));
                    lemma_emit_defined(st1, VKind::Builtin2(FnOp::Log), seq![r, vs[0]], np);
                }
            }
        },
    }
}

/// Law: compiled code reads only registers that hold a value. Instruction `k`
/// writes temporary `k`; every register it reads is a parameter, a constant of
/// the pool, or a temporary an earlier instruction wrote; so is the result.
pub proof fn law_compiled_code_reads_defined_registers(t: Term, ps: Seq<Seq<char>>, ns: Seq<Seq<char>>)
    ensures
        vir_of(t, ps, ns) matches Ok((v, st)) ==>
            defined_code(st, ps.len()) && defined_at(v, st.code.len() as int, ps.len(), st.pool.len()),
{
    lemma_lower_defined(t, ps, ns, initial_lowering());
}

/// Whether the evaluator has an operation for `name` called on `n` arguments.
pub open spec fn supported_call(name: Seq<char>, n: nat) -> bool {
    fn_table(name) is Some || (n == 1 && (name == "log2"@ || name == "log10"@))
}

/// Whether every symbol of `t` is a parameter or a named constant, every
/// call is supported, and no derivative is left.
pub open spec fn compilable(t: Term, ps: Seq<Seq<char>>, ns: Seq<Seq<char>>) -> bool
    decreases t,
{
    match t {
        Term::Num(_) => true,
        Term::Sym(s) => last_index(ps, s) >= 0 || first_index(ns, s) >= 0,
        Term::Call(name, args) => supported_call(name, args.len()) && all_compilable(args, ps, ns),
        Term::Sum(ts) => all_compilable(ts, ps, ns),
        Term::Prod(fs) => all_compilable(fs, ps, ns),
        Term::Div(a, b) => compilable(*a, ps, ns) && compilable(*b, ps, ns),
        Term::Pow(a, b) => compilable(*a, ps, ns) && compilable(*b, ps, ns),
        Term::Deriv(_, _, _) => false,
    }
}

/// Whether every term of the list is compilable.
pub open spec fn all_compilable(ts: Seq<Term>, ps: Seq<Seq<char>>, ns: Seq<Seq<char>>) -> bool
    decreases ts,
{
    if ts.len() == 0 {
        true
    } else {
        all_compilable(ts.drop_last(), ps, ns) && compilable(ts[ts.len() - 1], ps, ns)
    }
}

/// A step that succeeds or runs out of register numbers.
pub open spec fn ok_or_overflow<T>(r: Result<T, Fault>) -> bool {
    r is Ok || r == Err::<T, Fault>(Fault::Overflow)
}

proof fn lemma_rules_ok_or_overflow(st: Lowering, vs: Seq<VReg>, fs: Seq<Term>, e: Term, vb: VReg, ve: VReg, name: Seq<char>)
    ensures
        ok_or_overflow(add_of(vs, st)),
        ok_or_overflow(mul_of(vs, st)),
        ok_or_overflow(prod_of(fs, vs, st)),
        ok_or_overflow(pow_of(e, vb, ve, st)),
        supported_call(name, vs.len()) ==> ok_or_overflow(call_of(name, vs, st)),
        call_of(name, vs, st) is Ok ==> supported_call(name, vs.len()),
{
    let c = ConstRef::Number(int_num(if name == "log2"@ { 2 } else { 10 }));
    if let Ok((r, st1)) = const_reg(st, c) {
    }
}

proof fn lemma_lower_succeeds(t: Term, ps: Seq<Seq<char>>, ns: Seq<Seq<char>>, st: Lowering)
    ensures
        compilable(t, ps, ns) ==> ok_or_overflow(lower(t, ps, ns, st)),
        lower(t, ps, ns, st) is Ok ==> compilable(t, ps, ns),
    decreases t,
{
    match t {
        Term::Num(_) => {},
        Term::Sym(s) => {},
        Term::Call(name, args) => {
            lemma_lower_all_succeeds(args, ps, ns, st);
            lemma_lower_all_len(args, ps, ns, st);
            if let Ok((vs, st1)) = lower_all(args, ps, ns, st) {
                lemma_rules_ok_or_overflow(st1, vs, args, t, VReg::Param(0), VReg::Param(0), name);
            }
        },
        Term::Sum(ts) => {
            lemma_lower_all_succeeds(ts, ps, ns, st);
            if let Ok((vs, st1)) = lower_all(ts, ps, ns, st) {
                lemma_rules_ok_or_overflow(st1, vs, ts, t, VReg::Param(0), VReg::Param(0), Seq::empty());
            }
        },
        Term::Prod(fs) => {
            lemma_lower_all_succeeds(fs, ps, ns, st);
            if let Ok((vs, st1)) = lower_all(fs, ps, ns, st) {
                lemma_rules_ok_or_overflow(st1, vs, fs, t, VReg::Param(0), VReg::Param(0), Seq::empty());
            }
        },
        Term::Div(a, b) => {
            lemma_lower_succeeds(*a, ps, ns, st);
            if let Ok((va, st1)) = lower(*a, ps, ns, st) {
                lemma_lower_succeeds(*b, ps, ns, st1);
            }
        },
        Term::Pow(a, b) => {
            lemma_lower_succeeds(*a, ps, ns, st);
            if let Ok((va, st1)) = lower(*a, ps, ns, st) {
                lemma_lower_succeeds(*b, ps, ns, st1);
                if let Ok((vb, st2)) = lower(*b, ps, ns, st1) {
                    lemma_rules_ok_or_overflow(st2, Seq::empty(), Seq::empty(), *b, va, vb, Seq::empty());
                }
            }
        },
        Term::Deriv(inner, _, _) => {
            lemma_lower_succeeds(*inner, ps, ns, st);
        },
    }
}

proof fn lemma_lower_all_succeeds(ts: Seq<Term>, ps: Seq<Seq<char>>, ns: Seq<Seq<char>>, st: Lowering)
    ensures
        all_compilable(ts, ps, ns) ==> ok_or_overflow(lower_all(ts, ps, ns, st)),
        lower_all(ts, ps, ns, st) is Ok ==> all_compilable(ts, ps, ns),
    decreases ts,
{
    if ts.len() > 0 {
        lemma_lower_all_succeeds(ts.drop_last(), ps, ns, st);
        if let Ok((vs, st1)) = lower_all(ts.drop_last(), ps, ns, st) {
            lemma_lower_succeeds(ts[ts.len() - 1], ps, ns, st1);
        }
    }
}

/// Law: compilation succeeds exactly on compilable expressions, short of
/// running out of register numbers. Every symbol must be a parameter or a
/// named constant, every call supported, and no derivative left; then the
/// only failure left is `Overflow`.
pub proof fn law_compiles_when_compilable(t: Term, ps: Seq<Seq<char>>, ns: Seq<Seq<char>>)
    ensures
        vir_of(t, ps, ns) is Ok ==> compilable(t, ps, ns),
        compilable(t, ps, ns) ==> vir_of(t, ps, ns) is Ok || vir_of(t, ps, ns) == Err::<(VReg, Lowering), Fault>(Fault::Overflow),
{
    lemma_lower_succeeds(t, ps, ns, initial_lowering());
}

/// The name of the function an operation evaluates.
pub open spec fn op_name(op: FnOp) -> Seq<char> {
    match op {
        FnOp::Sin => "sin"@,
        FnOp::Cos => "cos"@,
        FnOp::Tan => "tan"@,
        FnOp::Cot => "cot"@,
        FnOp::Sec => "sec"@,
        FnOp::Csc => "csc"@,
        FnOp::Asin => "asin"@,
        FnOp::Acos => "acos"@,
        FnOp::Atan => "atan"@,
        FnOp::Acot => "acot"@,
        FnOp::Asec => "asec"@,
        FnOp::Acsc => "acsc"@,
        FnOp::Sinh => "sinh"@,
        FnOp::Cosh => "cosh"@,
        FnOp::Tanh => "tanh"@,
        FnOp::Coth => "coth"@,
        FnOp::Sech => "sech"@,
        FnOp::Csch => "csch"@,
        FnOp::Asinh => "asinh"@,
        FnOp::Acosh => "acosh"@,
        FnOp::Atanh => "atanh"@,
        FnOp::Acoth => "acoth"@,
        FnOp::Acsch => "acsch"@,
        FnOp::Asech => "asech"@,
        FnOp::Exp => "exp"@,
        FnOp::Expm1 => "expm1"@,
        FnOp::ExpNeg => "exp_neg"@,
        FnOp::Ln => "ln"@,
        FnOp::Log1p => "log1p"@,
        FnOp::Sqrt => "sqrt"@,
        FnOp::Cbrt => "cbrt"@,
        FnOp::Abs => "abs"@,
        FnOp::Signum => "signum"@,
        FnOp::Floor => "floor"@,
        FnOp::Ceil => "ceil"@,
        FnOp::Round => "round"@,
        FnOp::Erf => "erf"@,
        FnOp::Erfc => "erfc"@,
        FnOp::Gamma => "gamma"@,
        FnOp::Digamma => "digamma"@,
        FnOp::Trigamma => "trigamma"@,
        FnOp::Tetragamma => "tetragamma"@,
        FnOp::Sinc => "sinc"@,
        FnOp::LambertW => "lambertw"@,
        FnOp::EllipticK => "elliptic_k"@,
        FnOp::EllipticE => "elliptic_e"@,
        FnOp::Zeta => "zeta"@,
        FnOp::ExpPolar => "exp_polar"@,
        FnOp::Atan2 => "atan2"@,
        FnOp::Log => "log"@,
        FnOp::BesselJ => "besselj"@,
        FnOp::BesselY => "bessely"@,
        FnOp::BesselI => "besseli"@,
        FnOp::BesselK => "besselk"@,
        FnOp::Polygamma => "polygamma"@,
        FnOp::Beta => "beta"@,
        FnOp::ZetaDeriv => "zeta_deriv"@,
        FnOp::Hermite => "hermite"@,
        FnOp::AssocLegendre => "assoc_legendre"@,
        FnOp::SphericalHarmonic => "spherical_harmonic"@,
    }
}

/// Whether `op` evaluates the function called `name`: its own name, the
/// spellings `sign` and `sgn` of the sign function, `ynm` for the spherical
/// harmonic, and `log` of one argument as the natural logarithm.
pub open spec fn evaluates(op: FnOp, name: Seq<char>) -> bool {
    ||| op_name(op) == name
    ||| op == FnOp::Signum && (name == "sign"@ || name == "sgn"@)
    ||| op == FnOp::SphericalHarmonic && name == "ynm"@
    ||| op == FnOp::Ln && name == "log"@
}

/// Law: the function table sends every name to the operation of that function.
pub proof fn law_function_table_evaluates_the_named_function(name: Seq<char>)
    ensures
        fn_table(name) matches Some(op) ==> evaluates(op, name),
{
}

/// The operation of a call instruction.
pub open spec fn call_op(k: VKind) -> Option<FnOp> {
    match k {
        VKind::Builtin1(op) => Some(op),
        VKind::Builtin2(op) => Some(op),
        VKind::BuiltinFun(op) => Some(op),
        _ => None,
    }
}

/// Law: a compiled call of a function in the table emits one call instruction
/// whose operation evaluates that function, reading the compiled arguments.
pub proof fn law_compiled_call_evaluates_its_function(name: Seq<char>, vs: Seq<VReg>, st: Lowering)
    requires
        fn_table(name) is Some,
    ensures
        call_of(name, vs, st) matches Ok((v, st2)) ==> {
            &&& st2.code.len() == st.code.len() + 1
            &&& st2.code.last().dest == v
            &&& st2.code.last().reads == vs
            &&& call_op(st2.code.last().kind) matches Some(op) && evaluates(op, name)
        },
{
}

/// The sum of the values of registers.
pub open spec fn sum_of(rs: Seq<VReg>, env: spec_fn(VReg) -> int) -> int
    decreases rs.len(),
{
    if rs.len() == 0 { 0 } else { sum_of(rs.drop_last(), env) + env(rs.last()) }
}

/// The product of the values of registers.
pub open spec fn product_of(rs: Seq<VReg>, env: spec_fn(VReg) -> int) -> int
    decreases rs.len(),
{
    if rs.len() == 0 { 1 } else { product_of(rs.drop_last(), env) * env(rs.last()) }
}

/// `x` to the natural power `k`.
pub open spec fn power(x: int, k: nat) -> int
    decreases k,
{
    if k == 0 { 1 } else { x * power(x, (k - 1) as nat) }
}

/// What an instruction computes when each register `r` holds the integer
/// `env(r)`: sums, products, differences and natural powers; `None` for the
/// operations that leave the integers.
pub open spec fn model_value(m: VModel, env: spec_fn(VReg) -> int) -> Option<int> {
    match m.kind {
        VKind::Add | VKind::Add2 => Some(sum_of(m.reads, env)),
        VKind::Mul | VKind::Mul2 => Some(product_of(m.reads, env)),
        VKind::Sub => Some(env(m.reads[0]) - env(m.reads[1])),
        VKind::Neg => Some(-env(m.reads[0])),
        VKind::Square => Some(power(env(m.reads[0]), 2)),
        VKind::Cube => Some(power(env(m.reads[0]), 3)),
        VKind::Pow4 => Some(power(env(m.reads[0]), 4)),
        VKind::Powi(n) => if n >= 0 { Some(power(env(m.reads[0]), n as nat)) } else { None },
        _ => None,
    }
}

/// The power an instruction raises its operand to, for the power operations:
/// `Recip` is the power -1, `InvSqrt` the power -1/2 (as `(-1, 2)`), and so on.
pub open spec fn exponent_of(k: VKind) -> Option<(int, int)> {
    match k {
        VKind::Square => Some((2, 1)),
        VKind::Cube => Some((3, 1)),
        VKind::Pow4 => Some((4, 1)),
        VKind::Recip => Some((-1, 1)),
        VKind::InvSquare => Some((-2, 1)),
        VKind::InvCube => Some((-3, 1)),
        VKind::Powi(n) => Some((n as int, 1)),
        VKind::BuiltinFun(FnOp::Sqrt) => Some((1, 2)),
        VKind::InvSqrt => Some((-1, 2)),
        VKind::Pow3_2 => Some((3, 2)),
        VKind::InvPow3_2 => Some((-3, 2)),
        _ => None,
    }
}

proof fn lemma_sum_product_two(a: VReg, b: VReg, env: spec_fn(VReg) -> int)
    ensures
        sum_of(seq![a, b], env) == env(a) + env(b),
        product_of(seq![a, b], env) == env(a) * env(b),
{
    assert(seq![a, b].drop_last() =~= seq![a]);
    assert(seq![a].drop_last() =~= Seq::<VReg>::empty());
    assert(sum_of(seq![a], env) == sum_of(Seq::<VReg>::empty(), env) + env(a));
    assert(sum_of(seq![a, b], env) == sum_of(seq![a], env) + env(b));
    assert(product_of(seq![a], env) == product_of(Seq::<VReg>::empty(), env) * env(a));
    assert(product_of(seq![a, b], env) == product_of(seq![a], env) * env(b));
}

/// Law: a compiled sum adds the registers of its terms and a compiled product
/// multiplies those of its factors. For every integer value of the registers,
/// the instruction emitted for two or more registers computes their sum
/// (product); one register is handed on as it is; none gives the constant 0
/// (1).
pub proof fn law_sums_add_and_products_multiply(vs: Seq<VReg>, st: Lowering, env: spec_fn(VReg) -> int)
    requires
        st.pool.len() <= u32::MAX,
    ensures
        add_of(vs, st) matches Ok((r, st2)) ==> {
            &&& vs.len() >= 2 ==> st2.code.last().dest == r && model_value(st2.code.last(), env) == Some(sum_of(vs, env))
            &&& vs.len() == 1 ==> r == vs[0]
            &&& vs.len() == 0 ==> (r matches VReg::Const(c) && st2.pool[c as int] == ConstRef::Number(int_num(0)))
        },
        mul_of(vs, st) matches Ok((r, st2)) ==> {
            &&& vs.len() >= 2 ==> st2.code.last().dest == r && model_value(st2.code.last(), env) == Some(product_of(vs, env))
            &&& vs.len() == 1 ==> r == vs[0]
            &&& vs.len() == 0 ==> (r matches VReg::Const(c) && st2.pool[c as int] == ConstRef::Number(int_num(1)))
        },
{
    lemma_first_index(st.pool, ConstRef::Number(int_num(0)));
    lemma_first_index(st.pool, ConstRef::Number(int_num(1)));
    if vs.len() >= 2 {
        if let Ok((r, st2)) = add_of(vs, st) {
            let kind = if vs.len() == 2 { VKind::Add2 } else { VKind::Add };
            assert(add_of(vs, st) == emit(st, kind, vs));
            assert(st2.code == st.code.push(VModel { kind, dest: r, reads: vs }));
            assert(st2.code.last() == (VModel { kind, dest: r, reads: vs }));
        }
        if let Ok((r, st2)) = mul_of(vs, st) {
            let kind = if vs.len() == 2 { VKind::Mul2 } else { VKind::Mul };
            assert(mul_of(vs, st) == emit(st, kind, vs));
            assert(st2.code.last() == (VModel { kind, dest: r, reads: vs }));
        }
    }
}

/// Law: a compiled power with a literal integer exponent `k` raises the base
/// to `k`: for `k >= 2` the emitted instruction computes `base^k` for every
/// integer value of the base, `k = 1` hands the base on, `k = 0` gives the
/// constant 1; and every dedicated power instruction it emits is the power
/// the literal exponent names, halves included.
pub proof fn law_powers_raise_to_the_exponent(n: Num, vb: VReg, ve: VReg, st: Lowering, env: spec_fn(VReg) -> int)
    requires
        st.pool.len() <= u32::MAX,
    ensures
        pow_of(Term::Num(n), vb, ve, st) matches Ok((r, st2)) ==> {
            &&& n.places() == 0 && 2 <= n.mant() <= i32::MAX ==>
                    st2.code.last().dest == r && st2.code.last().reads[0] == vb
                    && model_value(st2.code.last(), env) == Some(power(env(vb), n.mant() as nat))
            &&& n.places() == 0 && n.mant() == 1 ==> r == vb
            &&& n.places() == 0 && n.mant() == 0 ==> (r matches VReg::Const(c) && st2.pool[c as int] == ConstRef::Number(int_num(1)))
        },
{
    lemma_first_index(st.pool, ConstRef::Number(int_num(1)));
    assert(power(10, 0) == 1);
    assert(power(10, 1) == 10 * power(10, 0));
    assert(power(env(vb), 2) == env(vb) * env(vb)) by {
        assert(power(env(vb), 1) == env(vb) * power(env(vb), 0));
    }
    assert(power(env(vb), 3) == env(vb) * power(env(vb), 2));
    assert(power(env(vb), 4) == env(vb) * power(env(vb), 3));
    let k = n.mant();
    if let Ok((r, st2)) = pow_of(Term::Num(n), vb, ve, st) {
        if st2.code.len() > st.code.len() {
            let m = st2.code.last();
            if n.places() == 0 {
                if 2 <= k <= i32::MAX {
                    let kind = if k == 2 { VKind::Square } else if k == 3 { VKind::Cube } else if k == 4 { VKind::Pow4 } else { VKind::Powi(k as i32) };
                    assert(pow_of(Term::Num(n), vb, ve, st) == emit(st, kind, seq![vb]));
                    assert(m == (VModel { kind, dest: r, reads: seq![vb] }));
                    if k >= 5 {
                        assert((k as i32) as nat == k as nat);
                    }
                }
            }
        }
    }
}

/// Whether a power instruction's power `p/q` is the number `n`.
pub open spec fn names_exponent(k: VKind, n: Num) -> bool {
    match exponent_of(k) {
        Some((p, q)) => p * power(10, n.places()) == n.mant() * q,
        None => true,
    }
}

/// Law: every dedicated power instruction emitted for a literal exponent is
/// the power that literal names: `p/q` with `p * 10^places == mantissa * q`,
/// so `x^2` is a square, `x^-1` a reciprocal, `x^0.5` a square root, and so on.
pub proof fn law_power_instruction_matches_exponent(n: Num, vb: VReg, ve: VReg, st: Lowering)
    ensures
        pow_of(Term::Num(n), vb, ve, st) matches Ok((r, st2)) ==>
            (st2.code.len() > st.code.len() ==>
                names_exponent(st2.code.last().kind, n)),
{
    assert(power(10, 0) == 1);
    assert(power(10, 1) == 10 * power(10, 0));
    let k = n.mant();
    if let Ok((r, st2)) = pow_of(Term::Num(n), vb, ve, st) {
        if st2.code.len() > st.code.len() {
            let m = st2.code.last();
            if n.places() == 0 {
                assert(power(10, n.places()) == 1);
                if i32::MIN <= k <= i32::MAX && !(k == 0 || k == 1 || k == 2 || k == 3 || k == 4 || k == -1 || k == -2 || k == -3) {
                    assert(pow_of(Term::Num(n), vb, ve, st) == emit(st, VKind::Powi(k as i32), seq![vb]));
                    assert(m.kind == VKind::Powi(k as i32));
                    assert((k as i32) as int == k);
                }
            } else if n.places() == 1 {
                assert(power(10, n.places()) == 10);
            }
            match m.kind {
                VKind::Square => { assert(k == 2 && n.places() == 0); assert(names_exponent(m.kind, n)); },
                VKind::Cube => { assert(k == 3 && n.places() == 0); assert(names_exponent(m.kind, n)); },
                VKind::Pow4 => { assert(k == 4 && n.places() == 0); assert(names_exponent(m.kind, n)); },
                VKind::Recip => { assert(k == -1 && n.places() == 0); assert(names_exponent(m.kind, n)); },
                VKind::InvSquare => { assert(k == -2 && n.places() == 0); assert(names_exponent(m.kind, n)); },
                VKind::InvCube => { assert(k == -3 && n.places() == 0); assert(names_exponent(m.kind, n)); },
                VKind::InvSqrt => { assert(k == -5 && n.places() == 1); assert(names_exponent(m.kind, n)); },
                VKind::Pow3_2 => { assert(k == 15 && n.places() == 1); assert(power(10, n.places()) == 10); assert(3 * power(10, n.places()) == 30); assert(n.mant() * 2 == 30); assert(exponent_of(m.kind) == Some((3int, 2int))); assert(names_exponent(m.kind, n)); },
                VKind::InvPow3_2 => { assert(k == -15 && n.places() == 1); assert(power(10, n.places()) == 10); assert(-3 * power(10, n.places()) == -30); assert(n.mant() * 2 == -30); assert(exponent_of(m.kind) == Some((-3int, 2int))); assert(names_exponent(m.kind, n)); },
                VKind::BuiltinFun(op) => { assert(k == 5 && n.places() == 1 && op == FnOp::Sqrt); assert(names_exponent(m.kind, n)); },
                _ => { assert(names_exponent(m.kind, n)); },
            }
        }
    }
}

} // verus!
