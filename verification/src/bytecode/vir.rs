//! Instructions over virtual registers, and their dead-code elimination.
//!
//! Virtual registers name parameters, constants and temporaries. Every
//! instruction writes a temporary; the elimination keeps, scanning backwards
//! from the result register, exactly the instructions whose result is read by
//! a kept instruction or is the result itself.

use vstd::prelude::*;
use super::instruction::FnOp;

verus! {

/// A virtual register.
#[derive(Clone, Copy, Debug, PartialEq, Eq, Hash, Structural)]
pub enum VReg {
    Param(u32),
    Const(u32),
    Temp(u32),
}

/// An instruction over virtual registers, before register allocation.
#[derive(Clone, Debug, PartialEq)]
pub enum VInstruction {
    Add { dest: VReg, srcs: Vec<VReg> },
    Add2 { dest: VReg, a: VReg, b: VReg },
    Mul { dest: VReg, srcs: Vec<VReg> },
    Mul2 { dest: VReg, a: VReg, b: VReg },
    Sub { dest: VReg, a: VReg, b: VReg },
    Div { dest: VReg, num: VReg, den: VReg },
    Pow { dest: VReg, base: VReg, exp: VReg },
    Neg { dest: VReg, src: VReg },
    NegMul { dest: VReg, a: VReg, b: VReg },
    BuiltinFun { dest: VReg, op: FnOp, args: Vec<VReg> },
    Builtin1 { dest: VReg, op: FnOp, arg: VReg },
    Builtin2 { dest: VReg, op: FnOp, arg1: VReg, arg2: VReg },
    Square { dest: VReg, src: VReg },
    Cube { dest: VReg, src: VReg },
    Pow4 { dest: VReg, src: VReg },
    Pow3_2 { dest: VReg, src: VReg },
    InvPow3_2 { dest: VReg, src: VReg },
    InvSqrt { dest: VReg, src: VReg },
    InvSquare { dest: VReg, src: VReg },
    InvCube { dest: VReg, src: VReg },
    Recip { dest: VReg, src: VReg },
    Powi { dest: VReg, src: VReg, n: i32 },
    MulAdd { dest: VReg, a: VReg, b: VReg, c: VReg },
    MulSub { dest: VReg, a: VReg, b: VReg, c: VReg },
    NegMulAdd { dest: VReg, a: VReg, b: VReg, c: VReg },
    NegMulSub { dest: VReg, a: VReg, b: VReg, c: VReg },
    RecipExpm1 { dest: VReg, src: VReg },
    ExpSqr { dest: VReg, src: VReg },
    ExpSqrNeg { dest: VReg, src: VReg },
}

/// The register an instruction writes.
pub open spec fn vdest_of(i: VInstruction) -> VReg {
    match i {
        VInstruction::Add { dest, .. } => dest,
        VInstruction::Add2 { dest, .. } => dest,
        VInstruction::Mul { dest, .. } => dest,
        VInstruction::Mul2 { dest, .. } => dest,
        VInstruction::Sub { dest, .. } => dest,
        VInstruction::Div { dest, .. } => dest,
        VInstruction::Pow { dest, .. } => dest,
        VInstruction::Neg { dest, .. } => dest,
        VInstruction::NegMul { dest, .. } => dest,
        VInstruction::BuiltinFun { dest, .. } => dest,
        VInstruction::Builtin1 { dest, .. } => dest,
        VInstruction::Builtin2 { dest, .. } => dest,
        VInstruction::Square { dest, .. } => dest,
        VInstruction::Cube { dest, .. } => dest,
        VInstruction::Pow4 { dest, .. } => dest,
        VInstruction::Pow3_2 { dest, .. } => dest,
        VInstruction::InvPow3_2 { dest, .. } => dest,
        VInstruction::InvSqrt { dest, .. } => dest,
        VInstruction::InvSquare { dest, .. } => dest,
        VInstruction::InvCube { dest, .. } => dest,
        VInstruction::Recip { dest, .. } => dest,
        VInstruction::Powi { dest, .. } => dest,
        VInstruction::MulAdd { dest, .. } => dest,
        VInstruction::MulSub { dest, .. } => dest,
        VInstruction::NegMulAdd { dest, .. } => dest,
        VInstruction::NegMulSub { dest, .. } => dest,
        VInstruction::RecipExpm1 { dest, .. } => dest,
        VInstruction::ExpSqr { dest, .. } => dest,
        VInstruction::ExpSqrNeg { dest, .. } => dest,
    }
}

/// The registers an instruction reads, in operand order.
pub open spec fn vreads_of(i: VInstruction) -> Seq<VReg> {
    match i {
        VInstruction::Add { srcs, .. } => srcs@,
        VInstruction::Add2 { a, b, .. } => seq![a, b],
        VInstruction::Mul { srcs, .. } => srcs@,
        VInstruction::Mul2 { a, b, .. } => seq![a, b],
        VInstruction::Sub { a, b, .. } => seq![a, b],
        VInstruction::Div { num, den, .. } => seq![num, den],
        VInstruction::Pow { base, exp, .. } => seq![base, exp],
        VInstruction::Neg { src, .. } => seq![src],
        VInstruction::NegMul { a, b, .. } => seq![a, b],
        VInstruction::BuiltinFun { args, .. } => args@,
        VInstruction::Builtin1 { arg, .. } => seq![arg],
        VInstruction::Builtin2 { arg1, arg2, .. } => seq![arg1, arg2],
        VInstruction::Square { src, .. } => seq![src],
        VInstruction::Cube { src, .. } => seq![src],
        VInstruction::Pow4 { src, .. } => seq![src],
        VInstruction::Pow3_2 { src, .. } => seq![src],
        VInstruction::InvPow3_2 { src, .. } => seq![src],
        VInstruction::InvSqrt { src, .. } => seq![src],
        VInstruction::InvSquare { src, .. } => seq![src],
        VInstruction::InvCube { src, .. } => seq![src],
        VInstruction::Recip { src, .. } => seq![src],
        VInstruction::Powi { src, .. } => seq![src],
        VInstruction::MulAdd { a, b, c, .. } => seq![a, b, c],
        VInstruction::MulSub { a, b, c, .. } => seq![a, b, c],
        VInstruction::NegMulAdd { a, b, c, .. } => seq![a, b, c],
        VInstruction::NegMulSub { a, b, c, .. } => seq![a, b, c],
        VInstruction::RecipExpm1 { src, .. } => seq![src],
        VInstruction::ExpSqr { src, .. } => seq![src],
        VInstruction::ExpSqrNeg { src, .. } => seq![src],
    }
}

impl VInstruction {
    /// The register the instruction writes.
    pub fn dest(&self) -> (r: VReg)
        ensures
            r == vdest_of(*self),
    {
        match self {
            VInstruction::Add { dest, .. } => *dest,
            VInstruction::Add2 { dest, .. } => *dest,
            VInstruction::Mul { dest, .. } => *dest,
            VInstruction::Mul2 { dest, .. } => *dest,
            VInstruction::Sub { dest, .. } => *dest,
            VInstruction::Div { dest, .. } => *dest,
            VInstruction::Pow { dest, .. } => *dest,
            VInstruction::Neg { dest, .. } => *dest,
            VInstruction::NegMul { dest, .. } => *dest,
            VInstruction::BuiltinFun { dest, .. } => *dest,
            VInstruction::Builtin1 { dest, .. } => *dest,
            VInstruction::Builtin2 { dest, .. } => *dest,
            VInstruction::Square { dest, .. } => *dest,
            VInstruction::Cube { dest, .. } => *dest,
            VInstruction::Pow4 { dest, .. } => *dest,
            VInstruction::Pow3_2 { dest, .. } => *dest,
            VInstruction::InvPow3_2 { dest, .. } => *dest,
            VInstruction::InvSqrt { dest, .. } => *dest,
            VInstruction::InvSquare { dest, .. } => *dest,
            VInstruction::InvCube { dest, .. } => *dest,
            VInstruction::Recip { dest, .. } => *dest,
            VInstruction::Powi { dest, .. } => *dest,
            VInstruction::MulAdd { dest, .. } => *dest,
            VInstruction::MulSub { dest, .. } => *dest,
            VInstruction::NegMulAdd { dest, .. } => *dest,
            VInstruction::NegMulSub { dest, .. } => *dest,
            VInstruction::RecipExpm1 { dest, .. } => *dest,
            VInstruction::ExpSqr { dest, .. } => *dest,
            VInstruction::ExpSqrNeg { dest, .. } => *dest,
        }
    }

    /// The registers the instruction reads, in operand order.
    pub fn reads(&self) -> (r: Vec<VReg>)
        ensures
            r@ == vreads_of(*self),
    {
        match self {
            VInstruction::Add { srcs, .. } => copy_vregs(srcs),
            VInstruction::Add2 { a, b, .. } => {
                let mut v: Vec<VReg> = Vec::new();
                v.push(*a);
                v.push(*b);
                assert(v@ =~= seq![*a, *b]);
                v
            },
            VInstruction::Mul { srcs, .. } => copy_vregs(srcs),
            VInstruction::Mul2 { a, b, .. } => {
                let mut v: Vec<VReg> = Vec::new();
                v.push(*a);
                v.push(*b);
                assert(v@ =~= seq![*a, *b]);
                v
            },
            VInstruction::Sub { a, b, .. } => {
                let mut v: Vec<VReg> = Vec::new();
                v.push(*a);
                v.push(*b);
                assert(v@ =~= seq![*a, *b]);
                v
            },
            VInstruction::Div { num, den, .. } => {
                let mut v: Vec<VReg> = Vec::new();
                v.push(*num);
                v.push(*den);
                assert(v@ =~= seq![*num, *den]);
                v
            },
            VInstruction::Pow { base, exp, .. } => {
                let mut v: Vec<VReg> = Vec::new();
                v.push(*base);
                v.push(*exp);
                assert(v@ =~= seq![*base, *exp]);
                v
            },
            VInstruction::Neg { src, .. } => {
                let mut v: Vec<VReg> = Vec::new();
                v.push(*src);
                assert(v@ =~= seq![*src]);
                v
            },
            VInstruction::NegMul { a, b, .. } => {
                let mut v: Vec<VReg> = Vec::new();
                v.push(*a);
                v.push(*b);
                assert(v@ =~= seq![*a, *b]);
                v
            },
            VInstruction::BuiltinFun { args, .. } => copy_vregs(args),
            VInstruction::Builtin1 { arg, .. } => {
                let mut v: Vec<VReg> = Vec::new();
                v.push(*arg);
                assert(v@ =~= seq![*arg]);
                v
            },
            VInstruction::Builtin2 { arg1, arg2, .. } => {
                let mut v: Vec<VReg> = Vec::new();
                v.push(*arg1);
                v.push(*arg2);
                assert(v@ =~= seq![*arg1, *arg2]);
                v
            },
            VInstruction::Square { src, .. } => {
                let mut v: Vec<VReg> = Vec::new();
                v.push(*src);
                assert(v@ =~= seq![*src]);
                v
            },
            VInstruction::Cube { src, .. } => {
                let mut v: Vec<VReg> = Vec::new();
                v.push(*src);
                assert(v@ =~= seq![*src]);
                v
            },
            VInstruction::Pow4 { src, .. } => {
                let mut v: Vec<VReg> = Vec::new();
                v.push(*src);
                assert(v@ =~= seq![*src]);
                v
            },
            VInstruction::Pow3_2 { src, .. } => {
                let mut v: Vec<VReg> = Vec::new();
                v.push(*src);
                assert(v@ =~= seq![*src]);
                v
            },
            VInstruction::InvPow3_2 { src, .. } => {
                let mut v: Vec<VReg> = Vec::new();
                v.push(*src);
                assert(v@ =~= seq![*src]);
                v
            },
            VInstruction::InvSqrt { src, .. } => {
                let mut v: Vec<VReg> = Vec::new();
                v.push(*src);
                assert(v@ =~= seq![*src]);
                v
            },
            VInstruction::InvSquare { src, .. } => {
                let mut v: Vec<VReg> = Vec::new();
                v.push(*src);
                assert(v@ =~= seq![*src]);
                v
            },
            VInstruction::InvCube { src, .. } => {
                let mut v: Vec<VReg> = Vec::new();
                v.push(*src);
                assert(v@ =~= seq![*src]);
                v
            },
            VInstruction::Recip { src, .. } => {
                let mut v: Vec<VReg> = Vec::new();
                v.push(*src);
                assert(v@ =~= seq![*src]);
                v
            },
            VInstruction::Powi { src, .. } => {
                let mut v: Vec<VReg> = Vec::new();
                v.push(*src);
                assert(v@ =~= seq![*src]);
                v
            },
            VInstruction::MulAdd { a, b, c, .. } => {
                let mut v: Vec<VReg> = Vec::new();
                v.push(*a);
                v.push(*b);
                v.push(*c);
                assert(v@ =~= seq![*a, *b, *c]);
                v
            },
            VInstruction::MulSub { a, b, c, .. } => {
                let mut v: Vec<VReg> = Vec::new();
                v.push(*a);
                v.push(*b);
                v.push(*c);
                assert(v@ =~= seq![*a, *b, *c]);
                v
            },
            VInstruction::NegMulAdd { a, b, c, .. } => {
                let mut v: Vec<VReg> = Vec::new();
                v.push(*a);
                v.push(*b);
                v.push(*c);
                assert(v@ =~= seq![*a, *b, *c]);
                v
            },
            VInstruction::NegMulSub { a, b, c, .. } => {
                let mut v: Vec<VReg> = Vec::new();
                v.push(*a);
                v.push(*b);
                v.push(*c);
                assert(v@ =~= seq![*a, *b, *c]);
                v
            },
            VInstruction::RecipExpm1 { src, .. } => {
                let mut v: Vec<VReg> = Vec::new();
                v.push(*src);
                assert(v@ =~= seq![*src]);
                v
            },
            VInstruction::ExpSqr { src, .. } => {
                let mut v: Vec<VReg> = Vec::new();
                v.push(*src);
                assert(v@ =~= seq![*src]);
                v
            },
            VInstruction::ExpSqrNeg { src, .. } => {
                let mut v: Vec<VReg> = Vec::new();
                v.push(*src);
                assert(v@ =~= seq![*src]);
                v
            },
        }
    }
}

/// A copy of a list of registers.
fn copy_vregs(v: &Vec<VReg>) -> (r: Vec<VReg>)
    ensures
        r@ == v@,
{
    let mut out: Vec<VReg> = Vec::new();
    let mut i: usize = 0;
    while i < v.len()
        invariant
            i <= v@.len(),
            out@ =~= v@.subrange(0, i as int),
        decreases v.len() - i,
    {
        out.push(v[i]);
        i = i + 1;
    }
    out
}

// ---------------------------------------------------------------------------
// Dead-code elimination
// ---------------------------------------------------------------------------

/// `t + 1` for a temporary `t`, 0 for other registers.
pub open spec fn temp_bound(r: VReg) -> nat {
    match r {
        VReg::Temp(t) => (t + 1) as nat,
        _ => 0,
    }
}

/// The larger of two numbers.
pub open spec fn max_nat(a: nat, b: nat) -> nat {
    if a >= b { a } else { b }
}

/// The largest `temp_bound` of the registers.
pub open spec fn reads_bound(rs: Seq<VReg>) -> nat
    decreases rs.len(),
{
    if rs.len() == 0 { 0 } else { max_nat(reads_bound(rs.drop_last()), temp_bound(rs.last())) }
}

/// The instruction writes a temporary, and every temporary it names is below `n`.
pub open spec fn vinstr_ok(i: VInstruction, n: nat) -> bool {
    &&& vdest_of(i) matches VReg::Temp(t) && t < n
    &&& forall|q: int| 0 <= q < vreads_of(i).len() ==>
            (#[trigger] vreads_of(i)[q] matches VReg::Temp(t) ==> t < n)
}

/// `l` with the temporaries read in `rs` marked live.
pub open spec fn mark_reads(l: Seq<bool>, rs: Seq<VReg>) -> Seq<bool> {
    Seq::new(l.len(), |t: int| l[t] || rs.contains(VReg::Temp(t as u32)))
}

/// Whether `i` writes a live temporary.
pub open spec fn writes_live_temp(l: Seq<bool>, i: VInstruction) -> bool {
    match vdest_of(i) {
        VReg::Temp(t) => l[t as int],
        _ => false,
    }
}

/// Live temporaries once instructions `k..` have been scanned backwards; only
/// the result register is live at the end.
pub open spec fn vlive_from(s: Seq<VInstruction>, k: int, n: nat, result: Option<VReg>) -> Seq<bool>
    decreases s.len() - k,
{
    if k >= s.len() {
        Seq::new(n, |t: int| result == Some(VReg::Temp(t as u32)))
    } else {
        let l = vlive_from(s, k + 1, n, result);
        if writes_live_temp(l, s[k]) { mark_reads(l, vreads_of(s[k])) } else { l }
    }
}

/// Whether instruction `k` is kept.
pub open spec fn vkept(s: Seq<VInstruction>, k: int, n: nat, result: Option<VReg>) -> bool {
    writes_live_temp(vlive_from(s, k + 1, n, result), s[k])
}

/// The kept instructions among `k..`, last first.
pub open spec fn vkept_back(s: Seq<VInstruction>, k: int, n: nat, result: Option<VReg>) -> Seq<VInstruction>
    decreases s.len() - k,
{
    if k >= s.len() {
        Seq::empty()
    } else {
        let rest = vkept_back(s, k + 1, n, result);
        if vkept(s, k, n, result) { rest.push(s[k]) } else { rest }
    }
}

/// One more than the largest temporary a kept instruction among `k..` names.
pub open spec fn vmax_from(s: Seq<VInstruction>, k: int, n: nat, result: Option<VReg>) -> nat
    decreases s.len() - k,
{
    if k >= s.len() {
        0
    } else {
        let m = vmax_from(s, k + 1, n, result);
        if vkept(s, k, n, result) {
            max_nat(m, max_nat(reads_bound(vreads_of(s[k])), temp_bound(vdest_of(s[k]))))
        } else {
            m
        }
    }
}

/// The temporaries the instructions can name are those below `n`, the result included.
pub open spec fn vir_ok(s: Seq<VInstruction>, n: nat, result: Option<VReg>) -> bool {
    &&& forall|k: int| 0 <= k < s.len() ==> vinstr_ok(#[trigger] s[k], n)
    &&& (result matches Some(VReg::Temp(t)) ==> t < n)
    &&& n <= u32::MAX
}

/// Dead-code elimination on virtual instructions: the kept instructions in
/// their original order, and one more than the largest temporary they or the
/// result name (0 when there are no instructions).
pub fn eliminate_vir_dead_code(
    vinstrs: Vec<VInstruction>,
    final_vreg: Option<VReg>,
    next_vreg: u32,
) -> (r: (Vec<VInstruction>, usize))
    requires
        vir_ok(vinstrs@, next_vreg as nat, final_vreg),
    ensures
        r.0@ == vkept_back(vinstrs@, 0, next_vreg as nat, final_vreg).reverse(),
        r.1 == (if vinstrs@.len() == 0 { 0 } else {
            max_nat(vmax_from(vinstrs@, 0, next_vreg as nat, final_vreg), temp_bound(final_vreg.unwrap_or(VReg::Param(0))))
        }),
{
    if vinstrs.len() == 0 {
        return (vinstrs, 0);
    }
    let ghost s = vinstrs@;
    let ghost n = next_vreg as nat;
    let nv = next_vreg as usize;
    let mut live: Vec<bool> = Vec::new();
    let mut t: usize = 0;
    while t < nv
        invariant
            t <= nv,
            nv == n,
            n <= u32::MAX,
            live@ =~= Seq::new(t as nat, |q: int| final_vreg == Some(VReg::Temp(q as u32))),
        decreases nv - t,
    {
        let is_result = match final_vreg {
            Some(VReg::Temp(f)) => f as usize == t,
            _ => false,
        };
        live.push(is_result);
        t = t + 1;
    }
    let mut v = vinstrs;
    let mut kept: Vec<VInstruction> = Vec::new();
    let mut max_temp: u32 = 0;
    while v.len() > 0
        invariant
            s.len() > 0,
            vir_ok(s, n, final_vreg),
            nv == n,
            v@.len() <= s.len(),
            v@ == s.subrange(0, v@.len() as int),
            live@ == vlive_from(s, v@.len() as int, n, final_vreg),
            live@.len() == n,
            kept@ == vkept_back(s, v@.len() as int, n, final_vreg),
            max_temp == vmax_from(s, v@.len() as int, n, final_vreg),
            max_temp <= n,
        decreases v.len(),
    {
        let ghost k = (v@.len() - 1) as int;
        let instr = v.pop().unwrap();
        assert(instr == s[k]);
        assert(vinstr_ok(s[k], n));
        let d = instr.dest();
        let dt = match d {
            VReg::Temp(x) => x,
            _ => { assert(false); 0 },
        };
        if live[dt as usize] {
            let rs = instr.reads();
            let ghost l0 = live@;
            let ghost m0 = max_temp as nat;
            let mut j: usize = 0;
            while j < rs.len()
                invariant
                    j <= rs@.len(),
                    rs@ == vreads_of(s[k]),
                    vinstr_ok(s[k], n),
                    nv == n,
                    n <= u32::MAX,
                    live@.len() == n,
                    forall|q: int| 0 <= q < n ==> #[trigger] live@[q] == (l0[q] || rs@.subrange(0, j as int).contains(VReg::Temp(q as u32))),
                    max_temp == max_nat(m0, reads_bound(rs@.subrange(0, j as int))),
                    max_temp <= n,
                decreases rs.len() - j,
            {
                let r = rs[j];
                proof {
                    let p = rs@.subrange(0, j + 1);
                    assert(p.drop_last() =~= rs@.subrange(0, j as int));
                    assert(p.last() == r);
                }
                assert(vreads_of(s[k])[j as int] == r);
                if let VReg::Temp(x) = r {
                    assert(x < n);
                    live.set(x as usize, true);
                    if x + 1 > max_temp {
                        max_temp = x + 1;
                    }
                }
                proof {
                    assert forall|q: int| 0 <= q < n implies #[trigger] live@[q] == (l0[q] || rs@.subrange(0, j + 1).contains(VReg::Temp(q as u32))) by {
                        let p = rs@.subrange(0, j + 1);
                        if rs@.subrange(0, j as int).contains(VReg::Temp(q as u32)) {
                            let w = choose|w: int| 0 <= w < j && rs@.subrange(0, j as int)[w] == VReg::Temp(q as u32);
                            assert(p[w] == VReg::Temp(q as u32));
                        }
                        if p.contains(VReg::Temp(q as u32)) {
                            let w = choose|w: int| 0 <= w < j + 1 && p[w] == VReg::Temp(q as u32);
                            if w < j {
                                assert(rs@.subrange(0, j as int)[w] == VReg::Temp(q as u32));
                            }
                        }
                        if r == VReg::Temp(q as u32) {
                            assert(p[j as int] == r);
                        }
                    }
                }
                j = j + 1;
            }
            assert(rs@.subrange(0, rs@.len() as int) =~= rs@);
            assert(live@ =~= mark_reads(l0, vreads_of(s[k])));
            if dt + 1 > max_temp {
                max_temp = dt + 1;
            }
            kept.push(instr);
        }
        proof {
            assert(v@ =~= s.subrange(0, k));
        }
    }
    let mut out: Vec<VInstruction> = Vec::new();
    let ghost kb = kept@;
    while kept.len() > 0
        invariant
            kept@.len() <= kb.len(),
            kept@ == kb.subrange(0, kept@.len() as int),
            out@ == kb.subrange(kept@.len() as int, kb.len() as int).reverse(),
        decreases kept.len(),
    {
        let ghost j = kept@.len() as int;
        let x = kept.pop().unwrap();
        out.push(x);
        proof {
            assert(kb.subrange(j - 1, kb.len() as int).reverse() =~= kb.subrange(j, kb.len() as int).reverse().push(kb[j - 1]));
            assert(kept@ =~= kb.subrange(0, j - 1));
        }
    }
    assert(kb.subrange(0, kb.len() as int) =~= kb);
    let mut result_bound = max_temp;
    if let Some(VReg::Temp(f)) = final_vreg {
        if f + 1 > result_bound {
            result_bound = f + 1;
        }
    }
    (out, result_bound as usize)
}

// ---------------------------------------------------------------------------
// Laws
// ---------------------------------------------------------------------------

/// Liveness only grows while scanning backwards: the result temporary is live everywhere.
pub proof fn lemma_result_always_live(s: Seq<VInstruction>, k: int, n: nat, t: u32)
    requires
        0 <= k <= s.len(),
        t < n,
    ensures
        vlive_from(s, k, n, Some(VReg::Temp(t))).len() == n,
        vlive_from(s, k, n, Some(VReg::Temp(t)))[t as int],
    decreases s.len() - k,
{
    if k < s.len() {
        lemma_result_always_live(s, k + 1, n, t);
    }
}

/// Every instruction that writes the result temporary is kept.
pub proof fn law_result_writers_kept(s: Seq<VInstruction>, k: int, n: nat, t: u32)
    requires
        0 <= k < s.len(),
        t < n,
        vdest_of(s[k]) == VReg::Temp(t),
    ensures
        vkept(s, k, n, Some(VReg::Temp(t))),
{
    lemma_result_always_live(s, k + 1, n, t);
}

/// The kept instructions are never more than the instructions.
pub proof fn law_vir_dce_never_grows(s: Seq<VInstruction>, k: int, n: nat, result: Option<VReg>)
    requires
        0 <= k <= s.len(),
    ensures
        vkept_back(s, k, n, result).len() <= s.len() - k,
    decreases s.len() - k,
{
    if k < s.len() {
        law_vir_dce_never_grows(s, k + 1, n, result);
    }
}

/// The largest `temp_bound` of a list bounds each of its registers.
pub proof fn lemma_reads_bound(rs: Seq<VReg>)
    ensures
        forall|q: int| 0 <= q < rs.len() ==> temp_bound(#[trigger] rs[q]) <= reads_bound(rs),
    decreases rs.len(),
{
    if rs.len() > 0 {
        lemma_reads_bound(rs.drop_last());
        assert forall|q: int| 0 <= q < rs.len() implies temp_bound(#[trigger] rs[q]) <= reads_bound(rs) by {
            if q < rs.len() - 1 {
                assert(rs.drop_last()[q] == rs[q]);
            }
        }
    }
}

/// The bound the pass returns is above every temporary that a kept instruction names.
pub proof fn law_vir_bound_covers_kept(s: Seq<VInstruction>, j: int, k: int, n: nat, result: Option<VReg>)
    requires
        0 <= j <= k < s.len(),
        vkept(s, k, n, result),
    ensures
        temp_bound(vdest_of(s[k])) <= vmax_from(s, j, n, result),
        forall|q: int| 0 <= q < vreads_of(s[k]).len() ==> temp_bound(#[trigger] vreads_of(s[k])[q]) <= vmax_from(s, j, n, result),
    decreases k - j,
{
    lemma_reads_bound(vreads_of(s[k]));
    if j < k {
        law_vir_bound_covers_kept(s, j + 1, k, n, result);
    }
}

/// The operation of an instruction, with its fixed parameters.
pub enum VKind {
    Add,
    Add2,
    Mul,
    Mul2,
    Sub,
    Div,
    Pow,
    Neg,
    NegMul,
    BuiltinFun(FnOp),
    Builtin1(FnOp),
    Builtin2(FnOp),
    Square,
    Cube,
    Pow4,
    Pow3_2,
    InvPow3_2,
    InvSqrt,
    InvSquare,
    InvCube,
    Recip,
    Powi(i32),
    MulAdd,
    MulSub,
    NegMulAdd,
    NegMulSub,
    RecipExpm1,
    ExpSqr,
    ExpSqrNeg,
}

/// An instruction as a value: its operation, the register it writes and the
/// registers it reads, in operand order.
pub struct VModel {
    pub kind: VKind,
    pub dest: VReg,
    pub reads: Seq<VReg>,
}

/// The operation of an instruction.
pub open spec fn vkind(i: VInstruction) -> VKind {
    match i {
        VInstruction::Add { .. } => VKind::Add,
        VInstruction::Add2 { .. } => VKind::Add2,
        VInstruction::Mul { .. } => VKind::Mul,
        VInstruction::Mul2 { .. } => VKind::Mul2,
        VInstruction::Sub { .. } => VKind::Sub,
        VInstruction::Div { .. } => VKind::Div,
        VInstruction::Pow { .. } => VKind::Pow,
        VInstruction::Neg { .. } => VKind::Neg,
        VInstruction::NegMul { .. } => VKind::NegMul,
        VInstruction::BuiltinFun { op, .. } => VKind::BuiltinFun(op),
        VInstruction::Builtin1 { op, .. } => VKind::Builtin1(op),
        VInstruction::Builtin2 { op, .. } => VKind::Builtin2(op),
        VInstruction::Square { .. } => VKind::Square,
        VInstruction::Cube { .. } => VKind::Cube,
        VInstruction::Pow4 { .. } => VKind::Pow4,
        VInstruction::Pow3_2 { .. } => VKind::Pow3_2,
        VInstruction::InvPow3_2 { .. } => VKind::InvPow3_2,
        VInstruction::InvSqrt { .. } => VKind::InvSqrt,
        VInstruction::InvSquare { .. } => VKind::InvSquare,
        VInstruction::InvCube { .. } => VKind::InvCube,
        VInstruction::Recip { .. } => VKind::Recip,
        VInstruction::Powi { n, .. } => VKind::Powi(n),
        VInstruction::MulAdd { .. } => VKind::MulAdd,
        VInstruction::MulSub { .. } => VKind::MulSub,
        VInstruction::NegMulAdd { .. } => VKind::NegMulAdd,
        VInstruction::NegMulSub { .. } => VKind::NegMulSub,
        VInstruction::RecipExpm1 { .. } => VKind::RecipExpm1,
        VInstruction::ExpSqr { .. } => VKind::ExpSqr,
        VInstruction::ExpSqrNeg { .. } => VKind::ExpSqrNeg,
    }
}

/// An instruction as a value.
pub open spec fn vmodel(i: VInstruction) -> VModel {
    VModel { kind: vkind(i), dest: vdest_of(i), reads: vreads_of(i) }
}

} // verus!
