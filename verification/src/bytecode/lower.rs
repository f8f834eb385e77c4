//! Lowering of instructions over virtual registers to instructions over
//! physical registers, once each temporary has its physical register.
//!
//! Sums and products of two to four operands get instructions of their own;
//! others read their operands from the argument pool. Calls of one argument to
//! sine, cosine, exponential, logarithm and square root get instructions of
//! their own too.

use vstd::prelude::*;
use super::instruction::{FnOp, Instruction};
use super::vir::{VInstruction, VReg, vreads_of};

verus! {

/// The physical register of a virtual register: parameters first, then
/// constants, then wherever `t2p` placed each temporary.
pub open spec fn vphys(r: VReg, pc: u32, t2p: Seq<u32>) -> u32 {
    match r {
        VReg::Param(p) => p,
        VReg::Const(c) => (pc + c) as u32,
        VReg::Temp(t) => t2p[t as int],
    }
}

/// The physical registers of a list of virtual registers.
pub open spec fn vphys_all(rs: Seq<VReg>, pc: u32, t2p: Seq<u32>) -> Seq<u32> {
    rs.map_values(|r: VReg| vphys(r, pc, t2p))
}

/// Whether a virtual register can be mapped: a constant's register number
/// fits in `u32`, and a temporary is one of the `nt` temporaries.
pub open spec fn vreg_mappable(r: VReg, pc: u32, nt: nat) -> bool {
    match r {
        VReg::Param(_) => true,
        VReg::Const(c) => pc + c <= u32::MAX,
        VReg::Temp(t) => t < nt,
    }
}

/// Whether every register an instruction reads can be mapped.
pub open spec fn reads_mappable(i: VInstruction, pc: u32, nt: nat) -> bool {
    forall|q: int| 0 <= q < vreads_of(i).len() ==> vreg_mappable(#[trigger] vreads_of(i)[q], pc, nt)
}

/// A sum over physical registers: the two-, three- and four-operand forms,
/// else the operands taken from the argument pool at `pool_len`.
pub open spec fn lower_sum(d: u32, r: Seq<u32>, pool_len: int) -> Instruction {
    if r.len() == 2 {
        Instruction::Add { dest: d, a: r[0], b: r[1] }
    } else if r.len() == 3 {
        Instruction::Add3 { dest: d, a: r[0], b: r[1], c: r[2] }
    } else if r.len() == 4 {
        Instruction::Add4 { dest: d, a: r[0], b: r[1], c: r[2], d: r[3] }
    } else {
        Instruction::AddN { dest: d, start_idx: pool_len as u32, count: r.len() as u32 }
    }
}

/// A product over physical registers, in the same shapes as `lower_sum`.
pub open spec fn lower_product(d: u32, r: Seq<u32>, pool_len: int) -> Instruction {
    if r.len() == 2 {
        Instruction::Mul { dest: d, a: r[0], b: r[1] }
    } else if r.len() == 3 {
        Instruction::Mul3 { dest: d, a: r[0], b: r[1], c: r[2] }
    } else if r.len() == 4 {
        Instruction::Mul4 { dest: d, a: r[0], b: r[1], c: r[2], d: r[3] }
    } else {
        Instruction::MulN { dest: d, start_idx: pool_len as u32, count: r.len() as u32 }
    }
}

/// Whether an operand list of this length goes to the argument pool.
pub open spec fn pooled_len(n: nat) -> bool {
    n != 2 && n != 3 && n != 4
}

/// A call of one argument: sine, cosine, exponential, logarithm and square
/// root have instructions of their own.
pub open spec fn lower_unary(op: FnOp, d: u32, a: u32) -> Instruction {
    match op {
        FnOp::Sin => Instruction::Sin { dest: d, arg: a },
        FnOp::Cos => Instruction::Cos { dest: d, arg: a },
        FnOp::Exp => Instruction::Exp { dest: d, arg: a },
        FnOp::Ln => Instruction::Ln { dest: d, arg: a },
        FnOp::Sqrt => Instruction::Sqrt { dest: d, arg: a },
        _ => Instruction::Builtin1 { dest: d, op, arg: a },
    }
}

/// A call of one to four arguments; `None` for any other number.
pub open spec fn lower_call(op: FnOp, d: u32, r: Seq<u32>) -> Option<Instruction> {
    if r.len() == 1 {
        Some(lower_unary(op, d, r[0]))
    } else if r.len() == 2 {
        Some(Instruction::Builtin2 { dest: d, op, arg1: r[0], arg2: r[1] })
    } else if r.len() == 3 {
        Some(Instruction::Builtin3 { dest: d, op, arg1: r[0], arg2: r[1], arg3: r[2] })
    } else if r.len() == 4 {
        Some(Instruction::Builtin4 { dest: d, op, arg1: r[0], arg2: r[1], arg3: r[2], arg4: r[3] })
    } else {
        None
    }
}

/// The instruction emitted for `i`, whose result goes to physical register
/// `d`, when the argument pool holds `pool_len` registers; `None` for a call
/// with an unsupported number of arguments, which emits nothing.
pub open spec fn lower_of(i: VInstruction, d: u32, pc: u32, t2p: Seq<u32>, pool_len: int) -> Option<Instruction> {
    match i {
        VInstruction::Add { srcs, .. } => Some(lower_sum(d, vphys_all(srcs@, pc, t2p), pool_len)),
        VInstruction::Add2 { a, b, .. } => Some(Instruction::Add { dest: d, a: vphys(a, pc, t2p), b: vphys(b, pc, t2p) }),
        VInstruction::Mul { srcs, .. } => Some(lower_product(d, vphys_all(srcs@, pc, t2p), pool_len)),
        VInstruction::Mul2 { a, b, .. } => Some(Instruction::Mul { dest: d, a: vphys(a, pc, t2p), b: vphys(b, pc, t2p) }),
        VInstruction::Sub { a, b, .. } => Some(Instruction::Sub { dest: d, a: vphys(a, pc, t2p), b: vphys(b, pc, t2p) }),
        VInstruction::Div { num, den, .. } => Some(Instruction::Div { dest: d, num: vphys(num, pc, t2p), den: vphys(den, pc, t2p) }),
        VInstruction::Pow { base, exp, .. } => Some(Instruction::Pow { dest: d, base: vphys(base, pc, t2p), exp: vphys(exp, pc, t2p) }),
        VInstruction::Neg { src, .. } => Some(Instruction::Neg { dest: d, src: vphys(src, pc, t2p) }),
        VInstruction::NegMul { a, b, .. } => Some(Instruction::NegMul { dest: d, a: vphys(a, pc, t2p), b: vphys(b, pc, t2p) }),
        VInstruction::BuiltinFun { op, args, .. } => lower_call(op, d, vphys_all(args@, pc, t2p)),
        VInstruction::Builtin1 { op, arg, .. } => Some(lower_unary(op, d, vphys(arg, pc, t2p))),
        VInstruction::Builtin2 { op, arg1, arg2, .. } => Some(Instruction::Builtin2 { dest: d, op, arg1: vphys(arg1, pc, t2p), arg2: vphys(arg2, pc, t2p) }),
        VInstruction::Square { src, .. } => Some(Instruction::Square { dest: d, src: vphys(src, pc, t2p) }),
        VInstruction::Cube { src, .. } => Some(Instruction::Cube { dest: d, src: vphys(src, pc, t2p) }),
        VInstruction::Pow4 { src, .. } => Some(Instruction::Pow4 { dest: d, src: vphys(src, pc, t2p) }),
        VInstruction::Pow3_2 { src, .. } => Some(Instruction::Pow3_2 { dest: d, src: vphys(src, pc, t2p) }),
        VInstruction::InvPow3_2 { src, .. } => Some(Instruction::InvPow3_2 { dest: d, src: vphys(src, pc, t2p) }),
        VInstruction::InvSqrt { src, .. } => Some(Instruction::InvSqrt { dest: d, src: vphys(src, pc, t2p) }),
        VInstruction::InvSquare { src, .. } => Some(Instruction::InvSquare { dest: d, src: vphys(src, pc, t2p) }),
        VInstruction::InvCube { src, .. } => Some(Instruction::InvCube { dest: d, src: vphys(src, pc, t2p) }),
        VInstruction::Recip { src, .. } => Some(Instruction::Recip { dest: d, src: vphys(src, pc, t2p) }),
        VInstruction::Powi { src, n, .. } => Some(Instruction::Powi { dest: d, src: vphys(src, pc, t2p), n }),
        VInstruction::MulAdd { a, b, c, .. } => Some(Instruction::MulAdd { dest: d, a: vphys(a, pc, t2p), b: vphys(b, pc, t2p), c: vphys(c, pc, t2p) }),
        VInstruction::MulSub { a, b, c, .. } => Some(Instruction::MulSub { dest: d, a: vphys(a, pc, t2p), b: vphys(b, pc, t2p), c: vphys(c, pc, t2p) }),
        VInstruction::NegMulAdd { a, b, c, .. } => Some(Instruction::NegMulAdd { dest: d, a: vphys(a, pc, t2p), b: vphys(b, pc, t2p), c: vphys(c, pc, t2p) }),
        VInstruction::NegMulSub { a, b, c, .. } => Some(Instruction::NegMulSub { dest: d, a: vphys(a, pc, t2p), b: vphys(b, pc, t2p), c: vphys(c, pc, t2p) }),
        VInstruction::RecipExpm1 { src, .. } => Some(Instruction::RecipExpm1 { dest: d, src: vphys(src, pc, t2p) }),
        VInstruction::ExpSqr { src, .. } => Some(Instruction::ExpSqr { dest: d, src: vphys(src, pc, t2p) }),
        VInstruction::ExpSqrNeg { src, .. } => Some(Instruction::ExpSqrNeg { dest: d, src: vphys(src, pc, t2p) }),
    }
}

/// The registers `i` appends to the argument pool: the operands of a sum or
/// product of other than two, three or four operands.
pub open spec fn pooled_of(i: VInstruction, pc: u32, t2p: Seq<u32>) -> Seq<u32> {
    match i {
        VInstruction::Add { srcs, .. } => if pooled_len(srcs@.len()) { vphys_all(srcs@, pc, t2p) } else { Seq::empty() },
        VInstruction::Mul { srcs, .. } => if pooled_len(srcs@.len()) { vphys_all(srcs@, pc, t2p) } else { Seq::empty() },
        _ => Seq::empty(),
    }
}

/// How many registers `i` appends to the argument pool.
pub open spec fn pooled_count(i: VInstruction) -> nat {
    match i {
        VInstruction::Add { srcs, .. } => if pooled_len(srcs@.len()) { srcs@.len() } else { 0 },
        VInstruction::Mul { srcs, .. } => if pooled_len(srcs@.len()) { srcs@.len() } else { 0 },
        _ => 0,
    }
}

/// The emitted instructions, as a sequence.
pub open spec fn emitted(o: Option<Instruction>) -> Seq<Instruction> {
    match o {
        Some(x) => seq![x],
        None => Seq::empty(),
    }
}

/// Whether `i` is one of the power instructions of a single operand.
pub open spec fn is_power_unary(i: VInstruction) -> bool {
    ||| i is Square
    ||| i is Cube
    ||| i is Pow4
    ||| i is Pow3_2
    ||| i is InvPow3_2
    ||| i is InvSqrt
    ||| i is InvSquare
    ||| i is InvCube
    ||| i is Recip
}

/// Whether `i` is a fused multiply-add.
pub open spec fn is_mul_add_family(i: VInstruction) -> bool {
    ||| i is MulAdd
    ||| i is MulSub
    ||| i is NegMulAdd
    ||| i is NegMulSub
}

/// Emits `instr`, whose result goes to physical register `dest_phys`.
pub fn emit_instruction(
    instr: &VInstruction,
    dest_phys: u32,
    pc: u32,
    temp_to_phys: &Vec<u32>,
    pool: &mut Vec<u32>,
    instructions: &mut Vec<Instruction>,
)
    requires
        reads_mappable(*instr, pc, temp_to_phys@.len()),
        old(pool)@.len() + pooled_count(*instr) <= u32::MAX,
    ensures
        final(instructions)@ == old(instructions)@ + emitted(lower_of(*instr, dest_phys, pc, temp_to_phys@, old(pool)@.len() as int)),
        final(pool)@ == old(pool)@ + pooled_of(*instr, pc, temp_to_phys@),
{
    let ghost rs = vreads_of(*instr);
    match instr {
        VInstruction::Add { srcs, .. } => {
            assert(rs == srcs@);
            emit_add_nary(dest_phys, srcs, pc, temp_to_phys, pool, instructions);
        },
        VInstruction::Add2 { a, b, .. } => {
            assert(rs[0] == *a && rs[1] == *b);
            emit_add2(dest_phys, *a, *b, pc, temp_to_phys, instructions);
        },
        VInstruction::Mul { srcs, .. } => {
            assert(rs == srcs@);
            emit_mul_nary(dest_phys, srcs, pc, temp_to_phys, pool, instructions);
        },
        VInstruction::Mul2 { a, b, .. } => {
            assert(rs[0] == *a && rs[1] == *b);
            emit_mul2(dest_phys, *a, *b, pc, temp_to_phys, instructions);
        },
        VInstruction::Sub { a, b, .. } => {
            assert(rs[0] == *a && rs[1] == *b);
            instructions.push(Instruction::Sub { dest: dest_phys, a: map_vreg(*a, pc, temp_to_phys), b: map_vreg(*b, pc, temp_to_phys) });
        },
        VInstruction::Div { num, den, .. } => {
            assert(rs[0] == *num && rs[1] == *den);
            instructions.push(Instruction::Div { dest: dest_phys, num: map_vreg(*num, pc, temp_to_phys), den: map_vreg(*den, pc, temp_to_phys) });
        },
        VInstruction::Pow { base, exp, .. } => {
            assert(rs[0] == *base && rs[1] == *exp);
            instructions.push(Instruction::Pow { dest: dest_phys, base: map_vreg(*base, pc, temp_to_phys), exp: map_vreg(*exp, pc, temp_to_phys) });
        },
        VInstruction::Neg { src, .. } => {
            assert(rs[0] == *src);
            instructions.push(Instruction::Neg { dest: dest_phys, src: map_vreg(*src, pc, temp_to_phys) });
        },
        VInstruction::NegMul { a, b, .. } => {
            assert(rs[0] == *a && rs[1] == *b);
            instructions.push(Instruction::NegMul { dest: dest_phys, a: map_vreg(*a, pc, temp_to_phys), b: map_vreg(*b, pc, temp_to_phys) });
        },
        VInstruction::BuiltinFun { op, args, .. } => {
            assert(rs == args@);
            emit_builtin_fun(dest_phys, *op, args, pc, temp_to_phys, instructions);
        },
        VInstruction::Builtin1 { op, arg, .. } => {
            assert(rs[0] == *arg);
            emit_builtin_unary(dest_phys, *op, *arg, pc, temp_to_phys, instructions);
        },
        VInstruction::Builtin2 { op, arg1, arg2, .. } => {
            assert(rs[0] == *arg1 && rs[1] == *arg2);
            instructions.push(Instruction::Builtin2 {
                dest: dest_phys,
                op: *op,
                arg1: map_vreg(*arg1, pc, temp_to_phys),
                arg2: map_vreg(*arg2, pc, temp_to_phys),
            });
        },
        VInstruction::Square { .. }
        | VInstruction::Cube { .. }
        | VInstruction::Pow4 { .. }
        | VInstruction::Pow3_2 { .. }
        | VInstruction::InvPow3_2 { .. }
        | VInstruction::InvSqrt { .. }
        | VInstruction::InvSquare { .. }
        | VInstruction::InvCube { .. }
        | VInstruction::Recip { .. }
        => {
            emit_power_unary(instr, dest_phys, pc, temp_to_phys, instructions);
        },
        VInstruction::Powi { src, n, .. } => {
            assert(rs[0] == *src);
            instructions.push(Instruction::Powi { dest: dest_phys, src: map_vreg(*src, pc, temp_to_phys), n: *n });
        },
        VInstruction::MulAdd { .. }
        | VInstruction::MulSub { .. }
        | VInstruction::NegMulAdd { .. }
        | VInstruction::NegMulSub { .. }
        => {
            emit_mul_add_family(instr, dest_phys, pc, temp_to_phys, instructions);
        },
        VInstruction::RecipExpm1 { src, .. } => {
            assert(rs[0] == *src);
            instructions.push(Instruction::RecipExpm1 { dest: dest_phys, src: map_vreg(*src, pc, temp_to_phys) });
        },
        VInstruction::ExpSqr { src, .. } => {
            assert(rs[0] == *src);
            instructions.push(Instruction::ExpSqr { dest: dest_phys, src: map_vreg(*src, pc, temp_to_phys) });
        },
        VInstruction::ExpSqrNeg { src, .. } => {
            assert(rs[0] == *src);
            instructions.push(Instruction::ExpSqrNeg { dest: dest_phys, src: map_vreg(*src, pc, temp_to_phys) });
        },
    }
}

/// Emits one of the power instructions of a single operand.
fn emit_power_unary(instr: &VInstruction, dest_phys: u32, pc: u32, temp_to_phys: &Vec<u32>, instructions: &mut Vec<Instruction>)
    requires
        reads_mappable(*instr, pc, temp_to_phys@.len()),
    ensures
        is_power_unary(*instr) ==> final(instructions)@ == old(instructions)@.push(lower_of(*instr, dest_phys, pc, temp_to_phys@, 0).unwrap()),
        !is_power_unary(*instr) ==> final(instructions)@ == old(instructions)@,
{
    let ghost rs = vreads_of(*instr);
    match instr {
        VInstruction::Square { src, .. } => {
            assert(rs[0] == *src);
            instructions.push(Instruction::Square { dest: dest_phys, src: map_vreg(*src, pc, temp_to_phys) });
        },
        VInstruction::Cube { src, .. } => {
            assert(rs[0] == *src);
            instructions.push(Instruction::Cube { dest: dest_phys, src: map_vreg(*src, pc, temp_to_phys) });
        },
        VInstruction::Pow4 { src, .. } => {
            assert(rs[0] == *src);
            instructions.push(Instruction::Pow4 { dest: dest_phys, src: map_vreg(*src, pc, temp_to_phys) });
        },
        VInstruction::Pow3_2 { src, .. } => {
            assert(rs[0] == *src);
            instructions.push(Instruction::Pow3_2 { dest: dest_phys, src: map_vreg(*src, pc, temp_to_phys) });
        },
        VInstruction::InvPow3_2 { src, .. } => {
            assert(rs[0] == *src);
            instructions.push(Instruction::InvPow3_2 { dest: dest_phys, src: map_vreg(*src, pc, temp_to_phys) });
        },
        VInstruction::InvSqrt { src, .. } => {
            assert(rs[0] == *src);
            instructions.push(Instruction::InvSqrt { dest: dest_phys, src: map_vreg(*src, pc, temp_to_phys) });
        },
        VInstruction::InvSquare { src, .. } => {
            assert(rs[0] == *src);
            instructions.push(Instruction::InvSquare { dest: dest_phys, src: map_vreg(*src, pc, temp_to_phys) });
        },
        VInstruction::InvCube { src, .. } => {
            assert(rs[0] == *src);
            instructions.push(Instruction::InvCube { dest: dest_phys, src: map_vreg(*src, pc, temp_to_phys) });
        },
        VInstruction::Recip { src, .. } => {
            assert(rs[0] == *src);
            instructions.push(Instruction::Recip { dest: dest_phys, src: map_vreg(*src, pc, temp_to_phys) });
        },
        _ => {},
    }
}

/// Emits one of the fused multiply-add instructions.
fn emit_mul_add_family(instr: &VInstruction, dest_phys: u32, pc: u32, temp_to_phys: &Vec<u32>, instructions: &mut Vec<Instruction>)
    requires
        reads_mappable(*instr, pc, temp_to_phys@.len()),
    ensures
        is_mul_add_family(*instr) ==> final(instructions)@ == old(instructions)@.push(lower_of(*instr, dest_phys, pc, temp_to_phys@, 0).unwrap()),
        !is_mul_add_family(*instr) ==> final(instructions)@ == old(instructions)@,
{
    let ghost rs = vreads_of(*instr);
    match instr {
        VInstruction::MulAdd { a, b, c, .. } => {
            assert(rs[0] == *a && rs[1] == *b && rs[2] == *c);
            instructions.push(Instruction::MulAdd {
                dest: dest_phys,
                a: map_vreg(*a, pc, temp_to_phys),
                b: map_vreg(*b, pc, temp_to_phys),
                c: map_vreg(*c, pc, temp_to_phys),
            });
        },
        VInstruction::MulSub { a, b, c, .. } => {
            assert(rs[0] == *a && rs[1] == *b && rs[2] == *c);
            instructions.push(Instruction::MulSub {
                dest: dest_phys,
                a: map_vreg(*a, pc, temp_to_phys),
                b: map_vreg(*b, pc, temp_to_phys),
                c: map_vreg(*c, pc, temp_to_phys),
            });
        },
        VInstruction::NegMulAdd { a, b, c, .. } => {
            assert(rs[0] == *a && rs[1] == *b && rs[2] == *c);
            instructions.push(Instruction::NegMulAdd {
                dest: dest_phys,
                a: map_vreg(*a, pc, temp_to_phys),
                b: map_vreg(*b, pc, temp_to_phys),
                c: map_vreg(*c, pc, temp_to_phys),
            });
        },
        VInstruction::NegMulSub { a, b, c, .. } => {
            assert(rs[0] == *a && rs[1] == *b && rs[2] == *c);
            instructions.push(Instruction::NegMulSub {
                dest: dest_phys,
                a: map_vreg(*a, pc, temp_to_phys),
                b: map_vreg(*b, pc, temp_to_phys),
                c: map_vreg(*c, pc, temp_to_phys),
            });
        },
        _ => {},
    }
}

/// The physical register of `vreg`.
pub fn map_vreg(vreg: VReg, param_count: u32, t2p: &Vec<u32>) -> (r: u32)
    requires
        vreg_mappable(vreg, param_count, t2p@.len()),
    ensures
        r == vphys(vreg, param_count, t2p@),
{
    match vreg {
        VReg::Param(p) => p,
        VReg::Const(c) => param_count + c,
        VReg::Temp(t) => t2p[t as usize],
    }
}

/// Appends the physical registers of `srcs` to the argument pool.
fn push_mapped(srcs: &Vec<VReg>, pc: u32, temp_to_phys: &Vec<u32>, pool: &mut Vec<u32>)
    requires
        forall|q: int| 0 <= q < srcs@.len() ==> vreg_mappable(#[trigger] srcs@[q], pc, temp_to_phys@.len()),
    ensures
        final(pool)@ == old(pool)@ + vphys_all(srcs@, pc, temp_to_phys@),
{
    let ghost start = pool@;
    let mut j: usize = 0;
    while j < srcs.len()
        invariant
            j <= srcs@.len(),
            forall|q: int| 0 <= q < srcs@.len() ==> vreg_mappable(#[trigger] srcs@[q], pc, temp_to_phys@.len()),
            pool@ == start + vphys_all(srcs@.subrange(0, j as int), pc, temp_to_phys@),
        decreases srcs.len() - j,
    {
        let r = map_vreg(srcs[j], pc, temp_to_phys);
        pool.push(r);
        proof {
            assert(vphys_all(srcs@.subrange(0, j + 1), pc, temp_to_phys@)
                =~= vphys_all(srcs@.subrange(0, j as int), pc, temp_to_phys@).push(r));
        }
        j = j + 1;
    }
    proof {
        assert(srcs@.subrange(0, srcs@.len() as int) =~= srcs@);
    }
}

/// Emits a sum of `srcs`.
fn emit_add_nary(
    dest_phys: u32,
    srcs: &Vec<VReg>,
    pc: u32,
    temp_to_phys: &Vec<u32>,
    pool: &mut Vec<u32>,
    instructions: &mut Vec<Instruction>,
)
    requires
        forall|q: int| 0 <= q < srcs@.len() ==> vreg_mappable(#[trigger] srcs@[q], pc, temp_to_phys@.len()),
        pooled_len(srcs@.len()) ==> old(pool)@.len() + srcs@.len() <= u32::MAX,
    ensures
        final(instructions)@ == old(instructions)@.push(
            lower_sum(dest_phys, vphys_all(srcs@, pc, temp_to_phys@), old(pool)@.len() as int)),
        final(pool)@ == old(pool)@ + (if pooled_len(srcs@.len()) { vphys_all(srcs@, pc, temp_to_phys@) } else { Seq::empty() }),
{
    let ghost r = vphys_all(srcs@, pc, temp_to_phys@);
    if srcs.len() == 2 {
        emit_add2(dest_phys, srcs[0], srcs[1], pc, temp_to_phys, instructions);
        proof { assert(pool@ =~= old(pool)@ + Seq::<u32>::empty()); }
    } else if srcs.len() == 3 {
        instructions.push(Instruction::Add3 {
            dest: dest_phys,
            a: map_vreg(srcs[0], pc, temp_to_phys),
            b: map_vreg(srcs[1], pc, temp_to_phys),
            c: map_vreg(srcs[2], pc, temp_to_phys),
        });
        proof { assert(pool@ =~= old(pool)@ + Seq::<u32>::empty()); }
    } else if srcs.len() == 4 {
        instructions.push(Instruction::Add4 {
            dest: dest_phys,
            a: map_vreg(srcs[0], pc, temp_to_phys),
            b: map_vreg(srcs[1], pc, temp_to_phys),
            c: map_vreg(srcs[2], pc, temp_to_phys),
            d: map_vreg(srcs[3], pc, temp_to_phys),
        });
        proof { assert(pool@ =~= old(pool)@ + Seq::<u32>::empty()); }
    } else {
        let start_idx = pool.len() as u32;
        push_mapped(srcs, pc, temp_to_phys, pool);
        instructions.push(Instruction::AddN { dest: dest_phys, start_idx, count: srcs.len() as u32 });
    }
}

/// Emits a product of `srcs`.
fn emit_mul_nary(
    dest_phys: u32,
    srcs: &Vec<VReg>,
    pc: u32,
    temp_to_phys: &Vec<u32>,
    pool: &mut Vec<u32>,
    instructions: &mut Vec<Instruction>,
)
    requires
        forall|q: int| 0 <= q < srcs@.len() ==> vreg_mappable(#[trigger] srcs@[q], pc, temp_to_phys@.len()),
        pooled_len(srcs@.len()) ==> old(pool)@.len() + srcs@.len() <= u32::MAX,
    ensures
        final(instructions)@ == old(instructions)@.push(
            lower_product(dest_phys, vphys_all(srcs@, pc, temp_to_phys@), old(pool)@.len() as int)),
        final(pool)@ == old(pool)@ + (if pooled_len(srcs@.len()) { vphys_all(srcs@, pc, temp_to_phys@) } else { Seq::empty() }),
{
    if srcs.len() == 2 {
        emit_mul2(dest_phys, srcs[0], srcs[1], pc, temp_to_phys, instructions);
        proof { assert(pool@ =~= old(pool)@ + Seq::<u32>::empty()); }
    } else if srcs.len() == 3 {
        instructions.push(Instruction::Mul3 {
            dest: dest_phys,
            a: map_vreg(srcs[0], pc, temp_to_phys),
            b: map_vreg(srcs[1], pc, temp_to_phys),
            c: map_vreg(srcs[2], pc, temp_to_phys),
        });
        proof { assert(pool@ =~= old(pool)@ + Seq::<u32>::empty()); }
    } else if srcs.len() == 4 {
        instructions.push(Instruction::Mul4 {
            dest: dest_phys,
            a: map_vreg(srcs[0], pc, temp_to_phys),
            b: map_vreg(srcs[1], pc, temp_to_phys),
            c: map_vreg(srcs[2], pc, temp_to_phys),
            d: map_vreg(srcs[3], pc, temp_to_phys),
        });
        proof { assert(pool@ =~= old(pool)@ + Seq::<u32>::empty()); }
    } else {
        let start_idx = pool.len() as u32;
        push_mapped(srcs, pc, temp_to_phys, pool);
        instructions.push(Instruction::MulN { dest: dest_phys, start_idx, count: srcs.len() as u32 });
    }
}

/// Emits a call of `op` on `args`; nothing for other than one to four arguments.
fn emit_builtin_fun(
    dest_phys: u32,
    op: FnOp,
    args: &Vec<VReg>,
    pc: u32,
    temp_to_phys: &Vec<u32>,
    instructions: &mut Vec<Instruction>,
)
    requires
        forall|q: int| 0 <= q < args@.len() ==> vreg_mappable(#[trigger] args@[q], pc, temp_to_phys@.len()),
    ensures
        final(instructions)@ == old(instructions)@ + emitted(lower_call(op, dest_phys, vphys_all(args@, pc, temp_to_phys@))),
{
    if args.len() == 1 {
        emit_builtin_unary(dest_phys, op, args[0], pc, temp_to_phys, instructions);
    } else if args.len() == 2 {
        instructions.push(Instruction::Builtin2 {
            dest: dest_phys,
            op,
            arg1: map_vreg(args[0], pc, temp_to_phys),
            arg2: map_vreg(args[1], pc, temp_to_phys),
        });
    } else if args.len() == 3 {
        instructions.push(Instruction::Builtin3 {
            dest: dest_phys,
            op,
            arg1: map_vreg(args[0], pc, temp_to_phys),
            arg2: map_vreg(args[1], pc, temp_to_phys),
            arg3: map_vreg(args[2], pc, temp_to_phys),
        });
    } else if args.len() == 4 {
        instructions.push(Instruction::Builtin4 {
            dest: dest_phys,
            op,
            arg1: map_vreg(args[0], pc, temp_to_phys),
            arg2: map_vreg(args[1], pc, temp_to_phys),
            arg3: map_vreg(args[2], pc, temp_to_phys),
            arg4: map_vreg(args[3], pc, temp_to_phys),
        });
    } else {
        proof { assert(instructions@ =~= old(instructions)@ + Seq::<Instruction>::empty()); }
    }
}

/// Emits a call of `op` on one argument.
fn emit_builtin_unary(
    dest_phys: u32,
    op: FnOp,
    arg: VReg,
    pc: u32,
    temp_to_phys: &Vec<u32>,
    instructions: &mut Vec<Instruction>,
)
    requires
        vreg_mappable(arg, pc, temp_to_phys@.len()),
    ensures
        final(instructions)@ == old(instructions)@.push(lower_unary(op, dest_phys, vphys(arg, pc, temp_to_phys@))),
{
    let a = map_vreg(arg, pc, temp_to_phys);
    match op {
        FnOp::Sin => instructions.push(Instruction::Sin { dest: dest_phys, arg: a }),
        FnOp::Cos => instructions.push(Instruction::Cos { dest: dest_phys, arg: a }),
        FnOp::Exp => instructions.push(Instruction::Exp { dest: dest_phys, arg: a }),
        FnOp::Ln => instructions.push(Instruction::Ln { dest: dest_phys, arg: a }),
        FnOp::Sqrt => instructions.push(Instruction::Sqrt { dest: dest_phys, arg: a }),
        _ => instructions.push(Instruction::Builtin1 { dest: dest_phys, op, arg: a }),
    }
}

/// Emits `a + b`.
fn emit_add2(dest_phys: u32, a: VReg, b: VReg, pc: u32, t2p: &Vec<u32>, instrs: &mut Vec<Instruction>)
    requires
        vreg_mappable(a, pc, t2p@.len()),
        vreg_mappable(b, pc, t2p@.len()),
    ensures
        final(instrs)@ == old(instrs)@.push(Instruction::Add { dest: dest_phys, a: vphys(a, pc, t2p@), b: vphys(b, pc, t2p@) }),
{
    instrs.push(Instruction::Add { dest: dest_phys, a: map_vreg(a, pc, t2p), b: map_vreg(b, pc, t2p) });
}

/// Emits `a * b`.
fn emit_mul2(dest_phys: u32, a: VReg, b: VReg, pc: u32, t2p: &Vec<u32>, instrs: &mut Vec<Instruction>)
    requires
        vreg_mappable(a, pc, t2p@.len()),
        vreg_mappable(b, pc, t2p@.len()),
    ensures
        final(instrs)@ == old(instrs)@.push(Instruction::Mul { dest: dest_phys, a: vphys(a, pc, t2p@), b: vphys(b, pc, t2p@) }),
{
    instrs.push(Instruction::Mul { dest: dest_phys, a: map_vreg(a, pc, t2p), b: map_vreg(b, pc, t2p) });
}

} // verus!
