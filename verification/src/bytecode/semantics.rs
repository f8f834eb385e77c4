//! What lowering keeps: the physical instruction emitted for an instruction
//! over virtual registers performs the same operation on the registers the
//! virtual ones are placed in.

use vstd::prelude::*;
use super::instruction::{FnOp, Instruction};
use super::vir::{VInstruction, VReg, VKind, vmodel, vkind};
use super::lower::{lower_of, vphys, vphys_all};
use super::compile::{model_value, sum_of, product_of, power, call_op};

verus! {

/// What a physical instruction computes when each register `r` holds the
/// integer `env(r)`: sums, products, differences, fused multiply-adds and
/// natural powers; `None` for the other operations.
pub open spec fn phys_value(i: Instruction, env: spec_fn(u32) -> int) -> Option<int> {
    match i {
        Instruction::Add { a, b, .. } => Some(env(a) + env(b)),
        Instruction::Add3 { a, b, c, .. } => Some(env(a) + env(b) + env(c)),
        Instruction::Add4 { a, b, c, d, .. } => Some(env(a) + env(b) + env(c) + env(d)),
        Instruction::Mul { a, b, .. } => Some(env(a) * env(b)),
        Instruction::Mul3 { a, b, c, .. } => Some(env(a) * env(b) * env(c)),
        Instruction::Mul4 { a, b, c, d, .. } => Some(env(a) * env(b) * env(c) * env(d)),
        Instruction::Sub { a, b, .. } => Some(env(a) - env(b)),
        Instruction::Neg { src, .. } => Some(-env(src)),
        Instruction::NegMul { a, b, .. } => Some(-(env(a) * env(b))),
        Instruction::MulAdd { a, b, c, .. } => Some(env(a) * env(b) + env(c)),
        Instruction::MulSub { a, b, c, .. } => Some(env(a) * env(b) - env(c)),
        Instruction::NegMulAdd { a, b, c, .. } => Some(-(env(a) * env(b)) + env(c)),
        Instruction::NegMulSub { a, b, c, .. } => Some(-(env(a) * env(b)) - env(c)),
        Instruction::Square { src, .. } => Some(env(src) * env(src)),
        Instruction::Cube { src, .. } => Some(env(src) * env(src) * env(src)),
        Instruction::Pow4 { src, .. } => Some(env(src) * env(src) * env(src) * env(src)),
        Instruction::Powi { src, n, .. } => if n >= 0 { Some(power(env(src), n as nat)) } else { None },
        _ => None,
    }
}

/// The function a physical call instruction evaluates.
pub open spec fn phys_call_op(i: Instruction) -> Option<FnOp> {
    match i {
        Instruction::Sin { .. } => Some(FnOp::Sin),
        Instruction::Cos { .. } => Some(FnOp::Cos),
        Instruction::Exp { .. } => Some(FnOp::Exp),
        Instruction::Ln { .. } => Some(FnOp::Ln),
        Instruction::Sqrt { .. } => Some(FnOp::Sqrt),
        Instruction::Builtin1 { op, .. } => Some(op),
        Instruction::Builtin2 { op, .. } => Some(op),
        Instruction::Builtin3 { op, .. } => Some(op),
        Instruction::Builtin4 { op, .. } => Some(op),
        _ => None,
    }
}

/// Whether an instruction reads its operands from the argument pool: a sum
/// or product of other than two, three or four operands.
pub open spec fn pooled(i: VInstruction) -> bool {
    match i {
        VInstruction::Add { srcs, .. } => srcs@.len() < 2 || srcs@.len() > 4,
        VInstruction::Mul { srcs, .. } => srcs@.len() < 2 || srcs@.len() > 4,
        _ => false,
    }
}

proof fn lemma_small_folds(rs: Seq<VReg>, env: spec_fn(VReg) -> int)
    ensures
        rs.len() == 2 ==> sum_of(rs, env) == env(rs[0]) + env(rs[1]) && product_of(rs, env) == env(rs[0]) * env(rs[1]),
        rs.len() == 3 ==> sum_of(rs, env) == env(rs[0]) + env(rs[1]) + env(rs[2])
            && product_of(rs, env) == env(rs[0]) * env(rs[1]) * env(rs[2]),
        rs.len() == 4 ==> sum_of(rs, env) == env(rs[0]) + env(rs[1]) + env(rs[2]) + env(rs[3])
            && product_of(rs, env) == env(rs[0]) * env(rs[1]) * env(rs[2]) * env(rs[3]),
{
    if 2 <= rs.len() <= 4 {
        let r1 = rs.take(1);
        let r2 = rs.take(2);
        let r3 = rs.take(3);
        assert(r1.drop_last() =~= Seq::<VReg>::empty());
        assert(sum_of(r1, env) == sum_of(Seq::<VReg>::empty(), env) + env(rs[0]));
        assert(product_of(r1, env) == product_of(Seq::<VReg>::empty(), env) * env(rs[0]));
        assert(r2.drop_last() =~= r1);
        assert(sum_of(r2, env) == sum_of(r1, env) + env(rs[1]));
        assert(product_of(r2, env) == product_of(r1, env) * env(rs[1]));
        if rs.len() == 2 {
            assert(r2 =~= rs);
        } else {
            assert(r3.drop_last() =~= r2);
            assert(sum_of(r3, env) == sum_of(r2, env) + env(rs[2]));
            assert(product_of(r3, env) == product_of(r2, env) * env(rs[2]));
            if rs.len() == 3 {
                assert(r3 =~= rs);
            } else {
                assert(rs.drop_last() =~= r3);
                assert(sum_of(rs, env) == sum_of(r3, env) + env(rs[3]));
                assert(product_of(rs, env) == product_of(r3, env) * env(rs[3]));
            }
        }
    }
}

/// The values of virtual registers placed in physical registers holding `env`.
pub open spec fn placed(env: spec_fn(u32) -> int, pc: u32, t2p: Seq<u32>) -> spec_fn(VReg) -> int {
    |r: VReg| env(vphys(r, pc, t2p))
}

proof fn lemma_placed_reads(rs: Seq<VReg>, env: spec_fn(u32) -> int, pc: u32, t2p: Seq<u32>)
    ensures
        vphys_all(rs, pc, t2p).len() == rs.len(),
        forall|k: int| 0 <= k < rs.len() ==> env(#[trigger] vphys_all(rs, pc, t2p)[k]) == placed(env, pc, t2p)(rs[k]),
{
    assert forall|k: int| 0 <= k < rs.len() implies env(#[trigger] vphys_all(rs, pc, t2p)[k]) == placed(env, pc, t2p)(rs[k]) by {
        assert(vphys_all(rs, pc, t2p)[k] == vphys(rs[k], pc, t2p));
    }
}

/// Law: lowering keeps what an instruction computes. For every integer value
/// of the physical registers, an arithmetic instruction that does not read
/// the argument pool is lowered to one computing the same value from the
/// registers its operands were placed in; a call is lowered to a call of the
/// same function.
pub proof fn law_lowering_keeps_the_operation(i: VInstruction, d: u32, pc: u32, t2p: Seq<u32>, pool_len: int, env: spec_fn(u32) -> int)
    ensures
        lower_of(i, d, pc, t2p, pool_len) matches Some(li) ==> {
            &&& !pooled(i) ==> (model_value(vmodel(i), placed(env, pc, t2p)) matches Some(x)
                    ==> phys_value(li, env) == Some(x))
            &&& call_op(vkind(i)) is Some ==> phys_call_op(li) == call_op(vkind(i))
        },
{
    let venv = placed(env, pc, t2p);
    let m = vmodel(i);
    lemma_small_folds(m.reads, venv);
    assert(power(venv(m.reads.first()), 0) == 1);
    if m.reads.len() >= 1 {
        let x = venv(m.reads[0]);
        assert(power(x, 1) == x * power(x, 0));
        assert(power(x, 2) == x * power(x, 1));
        assert(power(x, 3) == x * power(x, 2));
        assert(power(x, 4) == x * power(x, 3));
        assert(x * (x * x) == x * x * x) by (nonlinear_arith);
        assert(x * (x * (x * x)) == x * x * x * x) by (nonlinear_arith);
    }
    match i {
        VInstruction::Add { srcs, .. } => {
            lemma_placed_reads(m.reads, env, pc, t2p);
            let r = vphys_all(srcs@, pc, t2p);
            if 2 <= srcs@.len() <= 4 {
                assert(m.reads == srcs@);
                if srcs@.len() == 2 {
                    assert(phys_value(lower_of(i, d, pc, t2p, pool_len)->0, env) == Some(env(r[0]) + env(r[1])));
                    assert(sum_of(m.reads, venv) == venv(m.reads[0]) + venv(m.reads[1]));
                }
            }
        },
        VInstruction::Mul { srcs, .. } => {
            lemma_placed_reads(m.reads, env, pc, t2p);
        },
        _ => {},
    }
}

/// The operation a physical instruction performs, as the operation over
/// virtual registers it stands for: every sum is an `Add`, every product a
/// `Mul`, a call of one argument a `Builtin1`, and so on.
pub open spec fn phys_kind(i: Instruction) -> Option<VKind> {
    match i {
        Instruction::Add { .. } => Some(VKind::Add),
        Instruction::Add3 { .. } => Some(VKind::Add),
        Instruction::Add4 { .. } => Some(VKind::Add),
        Instruction::AddN { .. } => Some(VKind::Add),
        Instruction::Mul { .. } => Some(VKind::Mul),
        Instruction::Mul3 { .. } => Some(VKind::Mul),
        Instruction::Mul4 { .. } => Some(VKind::Mul),
        Instruction::MulN { .. } => Some(VKind::Mul),
        Instruction::Sub { .. } => Some(VKind::Sub),
        Instruction::Div { .. } => Some(VKind::Div),
        Instruction::Pow { .. } => Some(VKind::Pow),
        Instruction::Neg { .. } => Some(VKind::Neg),
        Instruction::NegMul { .. } => Some(VKind::NegMul),
        Instruction::Sin { .. } => Some(VKind::Builtin1(FnOp::Sin)),
        Instruction::Cos { .. } => Some(VKind::Builtin1(FnOp::Cos)),
        Instruction::Exp { .. } => Some(VKind::Builtin1(FnOp::Exp)),
        Instruction::Ln { .. } => Some(VKind::Builtin1(FnOp::Ln)),
        Instruction::Sqrt { .. } => Some(VKind::Builtin1(FnOp::Sqrt)),
        Instruction::Builtin1 { op, .. } => Some(VKind::Builtin1(op)),
        Instruction::Builtin2 { op, .. } => Some(VKind::Builtin2(op)),
        Instruction::Builtin3 { op, .. } => Some(VKind::BuiltinFun(op)),
        Instruction::Builtin4 { op, .. } => Some(VKind::BuiltinFun(op)),
        Instruction::Square { .. } => Some(VKind::Square),
        Instruction::Cube { .. } => Some(VKind::Cube),
        Instruction::Pow4 { .. } => Some(VKind::Pow4),
        Instruction::Pow3_2 { .. } => Some(VKind::Pow3_2),
        Instruction::InvPow3_2 { .. } => Some(VKind::InvPow3_2),
        Instruction::InvSqrt { .. } => Some(VKind::InvSqrt),
        Instruction::InvSquare { .. } => Some(VKind::InvSquare),
        Instruction::InvCube { .. } => Some(VKind::InvCube),
        Instruction::Recip { .. } => Some(VKind::Recip),
        Instruction::Powi { n, .. } => Some(VKind::Powi(n)),
        Instruction::MulAdd { .. } => Some(VKind::MulAdd),
        Instruction::MulSub { .. } => Some(VKind::MulSub),
        Instruction::NegMulAdd { .. } => Some(VKind::NegMulAdd),
        Instruction::NegMulSub { .. } => Some(VKind::NegMulSub),
        Instruction::RecipExpm1 { .. } => Some(VKind::RecipExpm1),
        Instruction::ExpSqr { .. } => Some(VKind::ExpSqr),
        Instruction::ExpSqrNeg { .. } => Some(VKind::ExpSqrNeg),
        _ => None,
    }
}

/// Whether a physical operation stands for the virtual operation `k`: the
/// same operation, a sum or product of any width for a sum or product, and a
/// call of the same function for a call.
pub open spec fn stands_for(k: VKind, p: Option<VKind>) -> bool {
    match k {
        VKind::Add2 => p == Some(VKind::Add),
        VKind::Mul2 => p == Some(VKind::Mul),
        VKind::BuiltinFun(op) => p == Some(VKind::BuiltinFun(op)) || p == Some(VKind::Builtin1(op))
            || p == Some(VKind::Builtin2(op)),
        _ => p == Some(k),
    }
}

/// Law: lowering keeps the operation. Whatever physical instruction an
/// instruction is lowered to performs the same operation (a sum stays a sum,
/// a division a division, a cube a cube, a call a call of the same function),
/// writing the register chosen for the result.
pub proof fn law_lowering_keeps_the_kind(i: VInstruction, d: u32, pc: u32, t2p: Seq<u32>, pool_len: int)
    ensures
        lower_of(i, d, pc, t2p, pool_len) matches Some(li) ==> stands_for(vkind(i), phys_kind(li)),
{
}

} // verus!
