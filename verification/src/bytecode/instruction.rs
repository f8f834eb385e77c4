//! The register-machine instruction set of the compiled evaluator.
//!
//! Registers are numbered: parameters first, then constants, then temporaries.
//! N-ary sums and products read their operands from a shared argument pool.

use vstd::prelude::*;

verus! {

/// Mathematical operations of the `Builtin*` instructions.
#[derive(Clone, Copy, Debug, PartialEq, Eq, Hash, Structural)]
pub enum FnOp {
    Sin,
    Cos,
    Tan,
    Cot,
    Sec,
    Csc,
    Asin,
    Acos,
    Atan,
    Acot,
    Asec,
    Acsc,
    Sinh,
    Cosh,
    Tanh,
    Coth,
    Sech,
    Csch,
    Asinh,
    Acosh,
    Atanh,
    Acoth,
    Acsch,
    Asech,
    Exp,
    Expm1,
    ExpNeg,
    Ln,
    Log1p,
    Sqrt,
    Cbrt,
    Abs,
    Signum,
    Floor,
    Ceil,
    Round,
    Erf,
    Erfc,
    Gamma,
    Digamma,
    Trigamma,
    Tetragamma,
    Sinc,
    LambertW,
    EllipticK,
    EllipticE,
    Zeta,
    ExpPolar,
    Atan2,
    Log,
    BesselJ,
    BesselY,
    BesselI,
    BesselK,
    Polygamma,
    Beta,
    ZetaDeriv,
    Hermite,
    AssocLegendre,
    SphericalHarmonic,
}

/// The numeric code of an operation, its position in the list above.
pub open spec fn fnop_code(op: FnOp) -> u32 {
    match op {
        FnOp::Sin => 0,
        FnOp::Cos => 1,
        FnOp::Tan => 2,
        FnOp::Cot => 3,
        FnOp::Sec => 4,
        FnOp::Csc => 5,
        FnOp::Asin => 6,
        FnOp::Acos => 7,
        FnOp::Atan => 8,
        FnOp::Acot => 9,
        FnOp::Asec => 10,
        FnOp::Acsc => 11,
        FnOp::Sinh => 12,
        FnOp::Cosh => 13,
        FnOp::Tanh => 14,
        FnOp::Coth => 15,
        FnOp::Sech => 16,
        FnOp::Csch => 17,
        FnOp::Asinh => 18,
        FnOp::Acosh => 19,
        FnOp::Atanh => 20,
        FnOp::Acoth => 21,
        FnOp::Acsch => 22,
        FnOp::Asech => 23,
        FnOp::Exp => 24,
        FnOp::Expm1 => 25,
        FnOp::ExpNeg => 26,
        FnOp::Ln => 27,
        FnOp::Log1p => 28,
        FnOp::Sqrt => 29,
        FnOp::Cbrt => 30,
        FnOp::Abs => 31,
        FnOp::Signum => 32,
        FnOp::Floor => 33,
        FnOp::Ceil => 34,
        FnOp::Round => 35,
        FnOp::Erf => 36,
        FnOp::Erfc => 37,
        FnOp::Gamma => 38,
        FnOp::Digamma => 39,
        FnOp::Trigamma => 40,
        FnOp::Tetragamma => 41,
        FnOp::Sinc => 42,
        FnOp::LambertW => 43,
        FnOp::EllipticK => 44,
        FnOp::EllipticE => 45,
        FnOp::Zeta => 46,
        FnOp::ExpPolar => 47,
        FnOp::Atan2 => 48,
        FnOp::Log => 49,
        FnOp::BesselJ => 50,
        FnOp::BesselY => 51,
        FnOp::BesselI => 52,
        FnOp::BesselK => 53,
        FnOp::Polygamma => 54,
        FnOp::Beta => 55,
        FnOp::ZetaDeriv => 56,
        FnOp::Hermite => 57,
        FnOp::AssocLegendre => 58,
        FnOp::SphericalHarmonic => 59,
    }
}

impl FnOp {
    /// The numeric code of the operation.
    pub fn code(&self) -> (r: u32)
        ensures
            r == fnop_code(*self),
    {
        match self {
            FnOp::Sin => 0,
            FnOp::Cos => 1,
            FnOp::Tan => 2,
            FnOp::Cot => 3,
            FnOp::Sec => 4,
            FnOp::Csc => 5,
            FnOp::Asin => 6,
            FnOp::Acos => 7,
            FnOp::Atan => 8,
            FnOp::Acot => 9,
            FnOp::Asec => 10,
            FnOp::Acsc => 11,
            FnOp::Sinh => 12,
            FnOp::Cosh => 13,
            FnOp::Tanh => 14,
            FnOp::Coth => 15,
            FnOp::Sech => 16,
            FnOp::Csch => 17,
            FnOp::Asinh => 18,
            FnOp::Acosh => 19,
            FnOp::Atanh => 20,
            FnOp::Acoth => 21,
            FnOp::Acsch => 22,
            FnOp::Asech => 23,
            FnOp::Exp => 24,
            FnOp::Expm1 => 25,
            FnOp::ExpNeg => 26,
            FnOp::Ln => 27,
            FnOp::Log1p => 28,
            FnOp::Sqrt => 29,
            FnOp::Cbrt => 30,
            FnOp::Abs => 31,
            FnOp::Signum => 32,
            FnOp::Floor => 33,
            FnOp::Ceil => 34,
            FnOp::Round => 35,
            FnOp::Erf => 36,
            FnOp::Erfc => 37,
            FnOp::Gamma => 38,
            FnOp::Digamma => 39,
            FnOp::Trigamma => 40,
            FnOp::Tetragamma => 41,
            FnOp::Sinc => 42,
            FnOp::LambertW => 43,
            FnOp::EllipticK => 44,
            FnOp::EllipticE => 45,
            FnOp::Zeta => 46,
            FnOp::ExpPolar => 47,
            FnOp::Atan2 => 48,
            FnOp::Log => 49,
            FnOp::BesselJ => 50,
            FnOp::BesselY => 51,
            FnOp::BesselI => 52,
            FnOp::BesselK => 53,
            FnOp::Polygamma => 54,
            FnOp::Beta => 55,
            FnOp::ZetaDeriv => 56,
            FnOp::Hermite => 57,
            FnOp::AssocLegendre => 58,
            FnOp::SphericalHarmonic => 59,
        }
    }
}

/// One bytecode instruction over physical registers.
#[derive(Clone, Copy, Debug, PartialEq, Eq, Hash, Structural)]
pub enum Instruction {
    End {},
    Copy { dest: u32, src: u32 },
    Neg { dest: u32, src: u32 },
    SinCos { sin_dest: u32, cos_dest: u32, arg: u32 },
    AsinAcos { asin_dest: u32, acos_dest: u32, arg: u32 },
    Add { dest: u32, a: u32, b: u32 },
    Add3 { dest: u32, a: u32, b: u32, c: u32 },
    Add4 { dest: u32, a: u32, b: u32, c: u32, d: u32 },
    AddN { dest: u32, start_idx: u32, count: u32 },
    Mul { dest: u32, a: u32, b: u32 },
    Mul3 { dest: u32, a: u32, b: u32, c: u32 },
    Mul4 { dest: u32, a: u32, b: u32, c: u32, d: u32 },
    MulN { dest: u32, start_idx: u32, count: u32 },
    Sub { dest: u32, a: u32, b: u32 },
    Div { dest: u32, num: u32, den: u32 },
    Pow { dest: u32, base: u32, exp: u32 },
    MulAdd { dest: u32, a: u32, b: u32, c: u32 },
    MulSub { dest: u32, a: u32, b: u32, c: u32 },
    NegMul { dest: u32, a: u32, b: u32 },
    NegMulAdd { dest: u32, a: u32, b: u32, c: u32 },
    NegMulSub { dest: u32, a: u32, b: u32, c: u32 },
    Square { dest: u32, src: u32 },
    Cube { dest: u32, src: u32 },
    Pow4 { dest: u32, src: u32 },
    Pow3_2 { dest: u32, src: u32 },
    InvPow3_2 { dest: u32, src: u32 },
    InvSqrt { dest: u32, src: u32 },
    InvSquare { dest: u32, src: u32 },
    InvCube { dest: u32, src: u32 },
    Recip { dest: u32, src: u32 },
    Powi { dest: u32, src: u32, n: i32 },
    Sin { dest: u32, arg: u32 },
    Cos { dest: u32, arg: u32 },
    Exp { dest: u32, arg: u32 },
    Ln { dest: u32, arg: u32 },
    Sqrt { dest: u32, arg: u32 },
    RecipExpm1 { dest: u32, src: u32 },
    ExpSqr { dest: u32, src: u32 },
    ExpSqrNeg { dest: u32, src: u32 },
    Builtin1 { dest: u32, op: FnOp, arg: u32 },
    Builtin2 { dest: u32, op: FnOp, arg1: u32, arg2: u32 },
    Builtin3 { dest: u32, op: FnOp, arg1: u32, arg2: u32, arg3: u32 },
    Builtin4 { dest: u32, op: FnOp, arg1: u32, arg2: u32, arg3: u32, arg4: u32 },
}

/// The registers an instruction reads, in operand order (pooled operands excluded).
pub open spec fn reads_of(i: Instruction) -> Seq<u32> {
    match i {
        Instruction::End {} => Seq::<u32>::empty(),
        Instruction::Copy { dest, src } => seq![src],
        Instruction::Neg { dest, src } => seq![src],
        Instruction::SinCos { sin_dest, cos_dest, arg } => seq![arg],
        Instruction::AsinAcos { asin_dest, acos_dest, arg } => seq![arg],
        Instruction::Add { dest, a, b } => seq![a, b],
        Instruction::Add3 { dest, a, b, c } => seq![a, b, c],
        Instruction::Add4 { dest, a, b, c, d } => seq![a, b, c, d],
        Instruction::AddN { dest, start_idx, count } => Seq::<u32>::empty(),
        Instruction::Mul { dest, a, b } => seq![a, b],
        Instruction::Mul3 { dest, a, b, c } => seq![a, b, c],
        Instruction::Mul4 { dest, a, b, c, d } => seq![a, b, c, d],
        Instruction::MulN { dest, start_idx, count } => Seq::<u32>::empty(),
        Instruction::Sub { dest, a, b } => seq![a, b],
        Instruction::Div { dest, num, den } => seq![num, den],
        Instruction::Pow { dest, base, exp } => seq![base, exp],
        Instruction::MulAdd { dest, a, b, c } => seq![a, b, c],
        Instruction::MulSub { dest, a, b, c } => seq![a, b, c],
        Instruction::NegMul { dest, a, b } => seq![a, b],
        Instruction::NegMulAdd { dest, a, b, c } => seq![a, b, c],
        Instruction::NegMulSub { dest, a, b, c } => seq![a, b, c],
        Instruction::Square { dest, src } => seq![src],
        Instruction::Cube { dest, src } => seq![src],
        Instruction::Pow4 { dest, src } => seq![src],
        Instruction::Pow3_2 { dest, src } => seq![src],
        Instruction::InvPow3_2 { dest, src } => seq![src],
        Instruction::InvSqrt { dest, src } => seq![src],
        Instruction::InvSquare { dest, src } => seq![src],
        Instruction::InvCube { dest, src } => seq![src],
        Instruction::Recip { dest, src } => seq![src],
        Instruction::Powi { dest, src, n } => seq![src],
        Instruction::Sin { dest, arg } => seq![arg],
        Instruction::Cos { dest, arg } => seq![arg],
        Instruction::Exp { dest, arg } => seq![arg],
        Instruction::Ln { dest, arg } => seq![arg],
        Instruction::Sqrt { dest, arg } => seq![arg],
        Instruction::RecipExpm1 { dest, src } => seq![src],
        Instruction::ExpSqr { dest, src } => seq![src],
        Instruction::ExpSqrNeg { dest, src } => seq![src],
        Instruction::Builtin1 { dest, op, arg } => seq![arg],
        Instruction::Builtin2 { dest, op, arg1, arg2 } => seq![arg1, arg2],
        Instruction::Builtin3 { dest, op, arg1, arg2, arg3 } => seq![arg1, arg2, arg3],
        Instruction::Builtin4 { dest, op, arg1, arg2, arg3, arg4 } => seq![arg1, arg2, arg3, arg4],
    }
}

/// The registers an instruction writes.
pub open spec fn writes_of(i: Instruction) -> Seq<u32> {
    match i {
        Instruction::End {} => Seq::<u32>::empty(),
        Instruction::Copy { dest, src } => seq![dest],
        Instruction::Neg { dest, src } => seq![dest],
        Instruction::SinCos { sin_dest, cos_dest, arg } => seq![sin_dest, cos_dest],
        Instruction::AsinAcos { asin_dest, acos_dest, arg } => seq![asin_dest, acos_dest],
        Instruction::Add { dest, a, b } => seq![dest],
        Instruction::Add3 { dest, a, b, c } => seq![dest],
        Instruction::Add4 { dest, a, b, c, d } => seq![dest],
        Instruction::AddN { dest, start_idx, count } => seq![dest],
        Instruction::Mul { dest, a, b } => seq![dest],
        Instruction::Mul3 { dest, a, b, c } => seq![dest],
        Instruction::Mul4 { dest, a, b, c, d } => seq![dest],
        Instruction::MulN { dest, start_idx, count } => seq![dest],
        Instruction::Sub { dest, a, b } => seq![dest],
        Instruction::Div { dest, num, den } => seq![dest],
        Instruction::Pow { dest, base, exp } => seq![dest],
        Instruction::MulAdd { dest, a, b, c } => seq![dest],
        Instruction::MulSub { dest, a, b, c } => seq![dest],
        Instruction::NegMul { dest, a, b } => seq![dest],
        Instruction::NegMulAdd { dest, a, b, c } => seq![dest],
        Instruction::NegMulSub { dest, a, b, c } => seq![dest],
        Instruction::Square { dest, src } => seq![dest],
        Instruction::Cube { dest, src } => seq![dest],
        Instruction::Pow4 { dest, src } => seq![dest],
        Instruction::Pow3_2 { dest, src } => seq![dest],
        Instruction::InvPow3_2 { dest, src } => seq![dest],
        Instruction::InvSqrt { dest, src } => seq![dest],
        Instruction::InvSquare { dest, src } => seq![dest],
        Instruction::InvCube { dest, src } => seq![dest],
        Instruction::Recip { dest, src } => seq![dest],
        Instruction::Powi { dest, src, n } => seq![dest],
        Instruction::Sin { dest, arg } => seq![dest],
        Instruction::Cos { dest, arg } => seq![dest],
        Instruction::Exp { dest, arg } => seq![dest],
        Instruction::Ln { dest, arg } => seq![dest],
        Instruction::Sqrt { dest, arg } => seq![dest],
        Instruction::RecipExpm1 { dest, src } => seq![dest],
        Instruction::ExpSqr { dest, src } => seq![dest],
        Instruction::ExpSqrNeg { dest, src } => seq![dest],
        Instruction::Builtin1 { dest, op, arg } => seq![dest],
        Instruction::Builtin2 { dest, op, arg1, arg2 } => seq![dest],
        Instruction::Builtin3 { dest, op, arg1, arg2, arg3 } => seq![dest],
        Instruction::Builtin4 { dest, op, arg1, arg2, arg3, arg4 } => seq![dest],
    }
}

/// The slice of the argument pool an N-ary instruction reads, as `(start, count)`.
pub open spec fn pool_range_of(i: Instruction) -> Option<(u32, u32)> {
    match i {
        Instruction::AddN { start_idx, count, .. } => Some((start_idx, count)),
        Instruction::MulN { start_idx, count, .. } => Some((start_idx, count)),
        _ => None,
    }
}

/// The opcode of an instruction in the flat encoding.
pub open spec fn opcode_of(i: Instruction) -> u32 {
    match i {
        Instruction::End { .. } => 0,
        Instruction::Copy { .. } => 1,
        Instruction::Neg { .. } => 2,
        Instruction::SinCos { .. } => 3,
        Instruction::AsinAcos { .. } => 4,
        Instruction::Add { .. } => 5,
        Instruction::Add3 { .. } => 6,
        Instruction::Add4 { .. } => 7,
        Instruction::AddN { .. } => 8,
        Instruction::Mul { .. } => 9,
        Instruction::Mul3 { .. } => 10,
        Instruction::Mul4 { .. } => 11,
        Instruction::MulN { .. } => 12,
        Instruction::Sub { .. } => 13,
        Instruction::Div { .. } => 14,
        Instruction::Pow { .. } => 15,
        Instruction::MulAdd { .. } => 16,
        Instruction::MulSub { .. } => 17,
        Instruction::NegMul { .. } => 18,
        Instruction::NegMulAdd { .. } => 19,
        Instruction::NegMulSub { .. } => 20,
        Instruction::Square { .. } => 21,
        Instruction::Cube { .. } => 22,
        Instruction::Pow4 { .. } => 23,
        Instruction::Pow3_2 { .. } => 24,
        Instruction::InvPow3_2 { .. } => 25,
        Instruction::InvSqrt { .. } => 26,
        Instruction::InvSquare { .. } => 27,
        Instruction::InvCube { .. } => 28,
        Instruction::Recip { .. } => 29,
        Instruction::Powi { .. } => 30,
        Instruction::Sin { .. } => 31,
        Instruction::Cos { .. } => 32,
        Instruction::Exp { .. } => 33,
        Instruction::Ln { .. } => 34,
        Instruction::Sqrt { .. } => 35,
        Instruction::RecipExpm1 { .. } => 36,
        Instruction::ExpSqr { .. } => 37,
        Instruction::ExpSqrNeg { .. } => 38,
        Instruction::Builtin1 { .. } => 39,
        Instruction::Builtin2 { .. } => 40,
        Instruction::Builtin3 { .. } => 41,
        Instruction::Builtin4 { .. } => 42,
    }
}

/// The instruction with every read register `r` replaced by `t[r]`.
pub open spec fn with_reads(i: Instruction, t: Seq<u32>) -> Instruction {
    match i {
        Instruction::End {} => Instruction::End {},
        Instruction::Copy { dest, src } => Instruction::Copy { dest, src: t[src as int] },
        Instruction::Neg { dest, src } => Instruction::Neg { dest, src: t[src as int] },
        Instruction::SinCos { sin_dest, cos_dest, arg } => Instruction::SinCos { sin_dest, cos_dest, arg: t[arg as int] },
        Instruction::AsinAcos { asin_dest, acos_dest, arg } => Instruction::AsinAcos { asin_dest, acos_dest, arg: t[arg as int] },
        Instruction::Add { dest, a, b } => Instruction::Add { dest, a: t[a as int], b: t[b as int] },
        Instruction::Add3 { dest, a, b, c } => Instruction::Add3 { dest, a: t[a as int], b: t[b as int], c: t[c as int] },
        Instruction::Add4 { dest, a, b, c, d } => Instruction::Add4 { dest, a: t[a as int], b: t[b as int], c: t[c as int], d: t[d as int] },
        Instruction::AddN { dest, start_idx, count } => Instruction::AddN { dest, start_idx, count },
        Instruction::Mul { dest, a, b } => Instruction::Mul { dest, a: t[a as int], b: t[b as int] },
        Instruction::Mul3 { dest, a, b, c } => Instruction::Mul3 { dest, a: t[a as int], b: t[b as int], c: t[c as int] },
        Instruction::Mul4 { dest, a, b, c, d } => Instruction::Mul4 { dest, a: t[a as int], b: t[b as int], c: t[c as int], d: t[d as int] },
        Instruction::MulN { dest, start_idx, count } => Instruction::MulN { dest, start_idx, count },
        Instruction::Sub { dest, a, b } => Instruction::Sub { dest, a: t[a as int], b: t[b as int] },
        Instruction::Div { dest, num, den } => Instruction::Div { dest, num: t[num as int], den: t[den as int] },
        Instruction::Pow { dest, base, exp } => Instruction::Pow { dest, base: t[base as int], exp: t[exp as int] },
        Instruction::MulAdd { dest, a, b, c } => Instruction::MulAdd { dest, a: t[a as int], b: t[b as int], c: t[c as int] },
        Instruction::MulSub { dest, a, b, c } => Instruction::MulSub { dest, a: t[a as int], b: t[b as int], c: t[c as int] },
        Instruction::NegMul { dest, a, b } => Instruction::NegMul { dest, a: t[a as int], b: t[b as int] },
        Instruction::NegMulAdd { dest, a, b, c } => Instruction::NegMulAdd { dest, a: t[a as int], b: t[b as int], c: t[c as int] },
        Instruction::NegMulSub { dest, a, b, c } => Instruction::NegMulSub { dest, a: t[a as int], b: t[b as int], c: t[c as int] },
        Instruction::Square { dest, src } => Instruction::Square { dest, src: t[src as int] },
        Instruction::Cube { dest, src } => Instruction::Cube { dest, src: t[src as int] },
        Instruction::Pow4 { dest, src } => Instruction::Pow4 { dest, src: t[src as int] },
        Instruction::Pow3_2 { dest, src } => Instruction::Pow3_2 { dest, src: t[src as int] },
        Instruction::InvPow3_2 { dest, src } => Instruction::InvPow3_2 { dest, src: t[src as int] },
        Instruction::InvSqrt { dest, src } => Instruction::InvSqrt { dest, src: t[src as int] },
        Instruction::InvSquare { dest, src } => Instruction::InvSquare { dest, src: t[src as int] },
        Instruction::InvCube { dest, src } => Instruction::InvCube { dest, src: t[src as int] },
        Instruction::Recip { dest, src } => Instruction::Recip { dest, src: t[src as int] },
        Instruction::Powi { dest, src, n } => Instruction::Powi { dest, src: t[src as int], n },
        Instruction::Sin { dest, arg } => Instruction::Sin { dest, arg: t[arg as int] },
        Instruction::Cos { dest, arg } => Instruction::Cos { dest, arg: t[arg as int] },
        Instruction::Exp { dest, arg } => Instruction::Exp { dest, arg: t[arg as int] },
        Instruction::Ln { dest, arg } => Instruction::Ln { dest, arg: t[arg as int] },
        Instruction::Sqrt { dest, arg } => Instruction::Sqrt { dest, arg: t[arg as int] },
        Instruction::RecipExpm1 { dest, src } => Instruction::RecipExpm1 { dest, src: t[src as int] },
        Instruction::ExpSqr { dest, src } => Instruction::ExpSqr { dest, src: t[src as int] },
        Instruction::ExpSqrNeg { dest, src } => Instruction::ExpSqrNeg { dest, src: t[src as int] },
        Instruction::Builtin1 { dest, op, arg } => Instruction::Builtin1 { dest, op, arg: t[arg as int] },
        Instruction::Builtin2 { dest, op, arg1, arg2 } => Instruction::Builtin2 { dest, op, arg1: t[arg1 as int], arg2: t[arg2 as int] },
        Instruction::Builtin3 { dest, op, arg1, arg2, arg3 } => Instruction::Builtin3 { dest, op, arg1: t[arg1 as int], arg2: t[arg2 as int], arg3: t[arg3 as int] },
        Instruction::Builtin4 { dest, op, arg1, arg2, arg3, arg4 } => Instruction::Builtin4 { dest, op, arg1: t[arg1 as int], arg2: t[arg2 as int], arg3: t[arg3 as int], arg4: t[arg4 as int] },
    }
}

/// The instruction with every register, written or read, `r` replaced by `t[r]`.
pub open spec fn with_regs(i: Instruction, t: Seq<u32>) -> Instruction {
    match i {
        Instruction::End {} => Instruction::End {},
        Instruction::Copy { dest, src } => Instruction::Copy { dest: t[dest as int], src: t[src as int] },
        Instruction::Neg { dest, src } => Instruction::Neg { dest: t[dest as int], src: t[src as int] },
        Instruction::SinCos { sin_dest, cos_dest, arg } => Instruction::SinCos { sin_dest: t[sin_dest as int], cos_dest: t[cos_dest as int], arg: t[arg as int] },
        Instruction::AsinAcos { asin_dest, acos_dest, arg } => Instruction::AsinAcos { asin_dest: t[asin_dest as int], acos_dest: t[acos_dest as int], arg: t[arg as int] },
        Instruction::Add { dest, a, b } => Instruction::Add { dest: t[dest as int], a: t[a as int], b: t[b as int] },
        Instruction::Add3 { dest, a, b, c } => Instruction::Add3 { dest: t[dest as int], a: t[a as int], b: t[b as int], c: t[c as int] },
        Instruction::Add4 { dest, a, b, c, d } => Instruction::Add4 { dest: t[dest as int], a: t[a as int], b: t[b as int], c: t[c as int], d: t[d as int] },
        Instruction::AddN { dest, start_idx, count } => Instruction::AddN { dest: t[dest as int], start_idx, count },
        Instruction::Mul { dest, a, b } => Instruction::Mul { dest: t[dest as int], a: t[a as int], b: t[b as int] },
        Instruction::Mul3 { dest, a, b, c } => Instruction::Mul3 { dest: t[dest as int], a: t[a as int], b: t[b as int], c: t[c as int] },
        Instruction::Mul4 { dest, a, b, c, d } => Instruction::Mul4 { dest: t[dest as int], a: t[a as int], b: t[b as int], c: t[c as int], d: t[d as int] },
        Instruction::MulN { dest, start_idx, count } => Instruction::MulN { dest: t[dest as int], start_idx, count },
        Instruction::Sub { dest, a, b } => Instruction::Sub { dest: t[dest as int], a: t[a as int], b: t[b as int] },
        Instruction::Div { dest, num, den } => Instruction::Div { dest: t[dest as int], num: t[num as int], den: t[den as int] },
        Instruction::Pow { dest, base, exp } => Instruction::Pow { dest: t[dest as int], base: t[base as int], exp: t[exp as int] },
        Instruction::MulAdd { dest, a, b, c } => Instruction::MulAdd { dest: t[dest as int], a: t[a as int], b: t[b as int], c: t[c as int] },
        Instruction::MulSub { dest, a, b, c } => Instruction::MulSub { dest: t[dest as int], a: t[a as int], b: t[b as int], c: t[c as int] },
        Instruction::NegMul { dest, a, b } => Instruction::NegMul { dest: t[dest as int], a: t[a as int], b: t[b as int] },
        Instruction::NegMulAdd { dest, a, b, c } => Instruction::NegMulAdd { dest: t[dest as int], a: t[a as int], b: t[b as int], c: t[c as int] },
        Instruction::NegMulSub { dest, a, b, c } => Instruction::NegMulSub { dest: t[dest as int], a: t[a as int], b: t[b as int], c: t[c as int] },
        Instruction::Square { dest, src } => Instruction::Square { dest: t[dest as int], src: t[src as int] },
        Instruction::Cube { dest, src } => Instruction::Cube { dest: t[dest as int], src: t[src as int] },
        Instruction::Pow4 { dest, src } => Instruction::Pow4 { dest: t[dest as int], src: t[src as int] },
        Instruction::Pow3_2 { dest, src } => Instruction::Pow3_2 { dest: t[dest as int], src: t[src as int] },
        Instruction::InvPow3_2 { dest, src } => Instruction::InvPow3_2 { dest: t[dest as int], src: t[src as int] },
        Instruction::InvSqrt { dest, src } => Instruction::InvSqrt { dest: t[dest as int], src: t[src as int] },
        Instruction::InvSquare { dest, src } => Instruction::InvSquare { dest: t[dest as int], src: t[src as int] },
        Instruction::InvCube { dest, src } => Instruction::InvCube { dest: t[dest as int], src: t[src as int] },
        Instruction::Recip { dest, src } => Instruction::Recip { dest: t[dest as int], src: t[src as int] },
        Instruction::Powi { dest, src, n } => Instruction::Powi { dest: t[dest as int], src: t[src as int], n },
        Instruction::Sin { dest, arg } => Instruction::Sin { dest: t[dest as int], arg: t[arg as int] },
        Instruction::Cos { dest, arg } => Instruction::Cos { dest: t[dest as int], arg: t[arg as int] },
        Instruction::Exp { dest, arg } => Instruction::Exp { dest: t[dest as int], arg: t[arg as int] },
        Instruction::Ln { dest, arg } => Instruction::Ln { dest: t[dest as int], arg: t[arg as int] },
        Instruction::Sqrt { dest, arg } => Instruction::Sqrt { dest: t[dest as int], arg: t[arg as int] },
        Instruction::RecipExpm1 { dest, src } => Instruction::RecipExpm1 { dest: t[dest as int], src: t[src as int] },
        Instruction::ExpSqr { dest, src } => Instruction::ExpSqr { dest: t[dest as int], src: t[src as int] },
        Instruction::ExpSqrNeg { dest, src } => Instruction::ExpSqrNeg { dest: t[dest as int], src: t[src as int] },
        Instruction::Builtin1 { dest, op, arg } => Instruction::Builtin1 { dest: t[dest as int], op, arg: t[arg as int] },
        Instruction::Builtin2 { dest, op, arg1, arg2 } => Instruction::Builtin2 { dest: t[dest as int], op, arg1: t[arg1 as int], arg2: t[arg2 as int] },
        Instruction::Builtin3 { dest, op, arg1, arg2, arg3 } => Instruction::Builtin3 { dest: t[dest as int], op, arg1: t[arg1 as int], arg2: t[arg2 as int], arg3: t[arg3 as int] },
        Instruction::Builtin4 { dest, op, arg1, arg2, arg3, arg4 } => Instruction::Builtin4 { dest: t[dest as int], op, arg1: t[arg1 as int], arg2: t[arg2 as int], arg3: t[arg3 as int], arg4: t[arg4 as int] },
    }
}

/// Every register the instruction names, written or read, is below `bound`.
pub open spec fn regs_below(i: Instruction, bound: int) -> bool {
    &&& forall|k: int| 0 <= k < reads_of(i).len() ==> reads_of(i)[k] < bound
    &&& forall|k: int| 0 <= k < writes_of(i).len() ==> writes_of(i)[k] < bound
}

/// The flat encoding of one instruction: its opcode, then its fields in order.
pub open spec fn encode_of(i: Instruction) -> Seq<u32> {
    match i {
        Instruction::End {} => seq![opcode_of(i)],
        Instruction::Copy { dest, src } => seq![opcode_of(i), dest, src],
        Instruction::Neg { dest, src } => seq![opcode_of(i), dest, src],
        Instruction::SinCos { sin_dest, cos_dest, arg } => seq![opcode_of(i), sin_dest, cos_dest, arg],
        Instruction::AsinAcos { asin_dest, acos_dest, arg } => seq![opcode_of(i), asin_dest, acos_dest, arg],
        Instruction::Add { dest, a, b } => seq![opcode_of(i), dest, a, b],
        Instruction::Add3 { dest, a, b, c } => seq![opcode_of(i), dest, a, b, c],
        Instruction::Add4 { dest, a, b, c, d } => seq![opcode_of(i), dest, a, b, c, d],
        Instruction::AddN { dest, start_idx, count } => seq![opcode_of(i), dest, start_idx, count],
        Instruction::Mul { dest, a, b } => seq![opcode_of(i), dest, a, b],
        Instruction::Mul3 { dest, a, b, c } => seq![opcode_of(i), dest, a, b, c],
        Instruction::Mul4 { dest, a, b, c, d } => seq![opcode_of(i), dest, a, b, c, d],
        Instruction::MulN { dest, start_idx, count } => seq![opcode_of(i), dest, start_idx, count],
        Instruction::Sub { dest, a, b } => seq![opcode_of(i), dest, a, b],
        Instruction::Div { dest, num, den } => seq![opcode_of(i), dest, num, den],
        Instruction::Pow { dest, base, exp } => seq![opcode_of(i), dest, base, exp],
        Instruction::MulAdd { dest, a, b, c } => seq![opcode_of(i), dest, a, b, c],
        Instruction::MulSub { dest, a, b, c } => seq![opcode_of(i), dest, a, b, c],
        Instruction::NegMul { dest, a, b } => seq![opcode_of(i), dest, a, b],
        Instruction::NegMulAdd { dest, a, b, c } => seq![opcode_of(i), dest, a, b, c],
        Instruction::NegMulSub { dest, a, b, c } => seq![opcode_of(i), dest, a, b, c],
        Instruction::Square { dest, src } => seq![opcode_of(i), dest, src],
        Instruction::Cube { dest, src } => seq![opcode_of(i), dest, src],
        Instruction::Pow4 { dest, src } => seq![opcode_of(i), dest, src],
        Instruction::Pow3_2 { dest, src } => seq![opcode_of(i), dest, src],
        Instruction::InvPow3_2 { dest, src } => seq![opcode_of(i), dest, src],
        Instruction::InvSqrt { dest, src } => seq![opcode_of(i), dest, src],
        Instruction::InvSquare { dest, src } => seq![opcode_of(i), dest, src],
        Instruction::InvCube { dest, src } => seq![opcode_of(i), dest, src],
        Instruction::Recip { dest, src } => seq![opcode_of(i), dest, src],
        Instruction::Powi { dest, src, n } => seq![opcode_of(i), dest, src, n as u32],
        Instruction::Sin { dest, arg } => seq![opcode_of(i), dest, arg],
        Instruction::Cos { dest, arg } => seq![opcode_of(i), dest, arg],
        Instruction::Exp { dest, arg } => seq![opcode_of(i), dest, arg],
        Instruction::Ln { dest, arg } => seq![opcode_of(i), dest, arg],
        Instruction::Sqrt { dest, arg } => seq![opcode_of(i), dest, arg],
        Instruction::RecipExpm1 { dest, src } => seq![opcode_of(i), dest, src],
        Instruction::ExpSqr { dest, src } => seq![opcode_of(i), dest, src],
        Instruction::ExpSqrNeg { dest, src } => seq![opcode_of(i), dest, src],
        Instruction::Builtin1 { dest, op, arg } => seq![opcode_of(i), dest, fnop_code(op), arg],
        Instruction::Builtin2 { dest, op, arg1, arg2 } => seq![opcode_of(i), dest, fnop_code(op), arg1, arg2],
        Instruction::Builtin3 { dest, op, arg1, arg2, arg3 } => seq![opcode_of(i), dest, fnop_code(op), arg1, arg2, arg3],
        Instruction::Builtin4 { dest, op, arg1, arg2, arg3, arg4 } => seq![opcode_of(i), dest, fnop_code(op), arg1, arg2, arg3, arg4],
    }
}

impl Instruction {
    /// The registers this instruction reads (pooled operands excluded).
    pub fn reads(&self) -> (r: Vec<u32>)
        ensures
            r@ == reads_of(*self),
    {
        match *self {
            Instruction::End {} => Vec::new(),
            Instruction::Copy { dest, src } => vec![src],
            Instruction::Neg { dest, src } => vec![src],
            Instruction::SinCos { sin_dest, cos_dest, arg } => vec![arg],
            Instruction::AsinAcos { asin_dest, acos_dest, arg } => vec![arg],
            Instruction::Add { dest, a, b } => vec![a, b],
            Instruction::Add3 { dest, a, b, c } => vec![a, b, c],
            Instruction::Add4 { dest, a, b, c, d } => vec![a, b, c, d],
            Instruction::AddN { dest, start_idx, count } => Vec::new(),
            Instruction::Mul { dest, a, b } => vec![a, b],
            Instruction::Mul3 { dest, a, b, c } => vec![a, b, c],
            Instruction::Mul4 { dest, a, b, c, d } => vec![a, b, c, d],
            Instruction::MulN { dest, start_idx, count } => Vec::new(),
            Instruction::Sub { dest, a, b } => vec![a, b],
            Instruction::Div { dest, num, den } => vec![num, den],
            Instruction::Pow { dest, base, exp } => vec![base, exp],
            Instruction::MulAdd { dest, a, b, c } => vec![a, b, c],
            Instruction::MulSub { dest, a, b, c } => vec![a, b, c],
            Instruction::NegMul { dest, a, b } => vec![a, b],
            Instruction::NegMulAdd { dest, a, b, c } => vec![a, b, c],
            Instruction::NegMulSub { dest, a, b, c } => vec![a, b, c],
            Instruction::Square { dest, src } => vec![src],
            Instruction::Cube { dest, src } => vec![src],
            Instruction::Pow4 { dest, src } => vec![src],
            Instruction::Pow3_2 { dest, src } => vec![src],
            Instruction::InvPow3_2 { dest, src } => vec![src],
            Instruction::InvSqrt { dest, src } => vec![src],
            Instruction::InvSquare { dest, src } => vec![src],
            Instruction::InvCube { dest, src } => vec![src],
            Instruction::Recip { dest, src } => vec![src],
            Instruction::Powi { dest, src, n } => vec![src],
            Instruction::Sin { dest, arg } => vec![arg],
            Instruction::Cos { dest, arg } => vec![arg],
            Instruction::Exp { dest, arg } => vec![arg],
            Instruction::Ln { dest, arg } => vec![arg],
            Instruction::Sqrt { dest, arg } => vec![arg],
            Instruction::RecipExpm1 { dest, src } => vec![src],
            Instruction::ExpSqr { dest, src } => vec![src],
            Instruction::ExpSqrNeg { dest, src } => vec![src],
            Instruction::Builtin1 { dest, op, arg } => vec![arg],
            Instruction::Builtin2 { dest, op, arg1, arg2 } => vec![arg1, arg2],
            Instruction::Builtin3 { dest, op, arg1, arg2, arg3 } => vec![arg1, arg2, arg3],
            Instruction::Builtin4 { dest, op, arg1, arg2, arg3, arg4 } => vec![arg1, arg2, arg3, arg4],
        }
    }

    /// The registers this instruction writes.
    pub fn writes(&self) -> (r: Vec<u32>)
        ensures
            r@ == writes_of(*self),
    {
        match *self {
            Instruction::End {} => Vec::new(),
            Instruction::Copy { dest, src } => vec![dest],
            Instruction::Neg { dest, src } => vec![dest],
            Instruction::SinCos { sin_dest, cos_dest, arg } => vec![sin_dest, cos_dest],
            Instruction::AsinAcos { asin_dest, acos_dest, arg } => vec![asin_dest, acos_dest],
            Instruction::Add { dest, a, b } => vec![dest],
            Instruction::Add3 { dest, a, b, c } => vec![dest],
            Instruction::Add4 { dest, a, b, c, d } => vec![dest],
            Instruction::AddN { dest, start_idx, count } => vec![dest],
            Instruction::Mul { dest, a, b } => vec![dest],
            Instruction::Mul3 { dest, a, b, c } => vec![dest],
            Instruction::Mul4 { dest, a, b, c, d } => vec![dest],
            Instruction::MulN { dest, start_idx, count } => vec![dest],
            Instruction::Sub { dest, a, b } => vec![dest],
            Instruction::Div { dest, num, den } => vec![dest],
            Instruction::Pow { dest, base, exp } => vec![dest],
            Instruction::MulAdd { dest, a, b, c } => vec![dest],
            Instruction::MulSub { dest, a, b, c } => vec![dest],
            Instruction::NegMul { dest, a, b } => vec![dest],
            Instruction::NegMulAdd { dest, a, b, c } => vec![dest],
            Instruction::NegMulSub { dest, a, b, c } => vec![dest],
            Instruction::Square { dest, src } => vec![dest],
            Instruction::Cube { dest, src } => vec![dest],
            Instruction::Pow4 { dest, src } => vec![dest],
            Instruction::Pow3_2 { dest, src } => vec![dest],
            Instruction::InvPow3_2 { dest, src } => vec![dest],
            Instruction::InvSqrt { dest, src } => vec![dest],
            Instruction::InvSquare { dest, src } => vec![dest],
            Instruction::InvCube { dest, src } => vec![dest],
            Instruction::Recip { dest, src } => vec![dest],
            Instruction::Powi { dest, src, n } => vec![dest],
            Instruction::Sin { dest, arg } => vec![dest],
            Instruction::Cos { dest, arg } => vec![dest],
            Instruction::Exp { dest, arg } => vec![dest],
            Instruction::Ln { dest, arg } => vec![dest],
            Instruction::Sqrt { dest, arg } => vec![dest],
            Instruction::RecipExpm1 { dest, src } => vec![dest],
            Instruction::ExpSqr { dest, src } => vec![dest],
            Instruction::ExpSqrNeg { dest, src } => vec![dest],
            Instruction::Builtin1 { dest, op, arg } => vec![dest],
            Instruction::Builtin2 { dest, op, arg1, arg2 } => vec![dest],
            Instruction::Builtin3 { dest, op, arg1, arg2, arg3 } => vec![dest],
            Instruction::Builtin4 { dest, op, arg1, arg2, arg3, arg4 } => vec![dest],
        }
    }

    /// The argument-pool slice `(start, count)` of an N-ary instruction.
    pub fn arg_pool_range(&self) -> (r: Option<(u32, u32)>)
        ensures
            r == pool_range_of(*self),
    {
        match *self {
            Instruction::AddN { start_idx, count, .. } => Some((start_idx, count)),
            Instruction::MulN { start_idx, count, .. } => Some((start_idx, count)),
            _ => None,
        }
    }

    /// The opcode of this instruction in the flat encoding.
    pub fn opcode(&self) -> (r: u32)
        ensures
            r == opcode_of(*self),
    {
        match *self {
            Instruction::End { .. } => 0,
            Instruction::Copy { .. } => 1,
            Instruction::Neg { .. } => 2,
            Instruction::SinCos { .. } => 3,
            Instruction::AsinAcos { .. } => 4,
            Instruction::Add { .. } => 5,
            Instruction::Add3 { .. } => 6,
            Instruction::Add4 { .. } => 7,
            Instruction::AddN { .. } => 8,
            Instruction::Mul { .. } => 9,
            Instruction::Mul3 { .. } => 10,
            Instruction::Mul4 { .. } => 11,
            Instruction::MulN { .. } => 12,
            Instruction::Sub { .. } => 13,
            Instruction::Div { .. } => 14,
            Instruction::Pow { .. } => 15,
            Instruction::MulAdd { .. } => 16,
            Instruction::MulSub { .. } => 17,
            Instruction::NegMul { .. } => 18,
            Instruction::NegMulAdd { .. } => 19,
            Instruction::NegMulSub { .. } => 20,
            Instruction::Square { .. } => 21,
            Instruction::Cube { .. } => 22,
            Instruction::Pow4 { .. } => 23,
            Instruction::Pow3_2 { .. } => 24,
            Instruction::InvPow3_2 { .. } => 25,
            Instruction::InvSqrt { .. } => 26,
            Instruction::InvSquare { .. } => 27,
            Instruction::InvCube { .. } => 28,
            Instruction::Recip { .. } => 29,
            Instruction::Powi { .. } => 30,
            Instruction::Sin { .. } => 31,
            Instruction::Cos { .. } => 32,
            Instruction::Exp { .. } => 33,
            Instruction::Ln { .. } => 34,
            Instruction::Sqrt { .. } => 35,
            Instruction::RecipExpm1 { .. } => 36,
            Instruction::ExpSqr { .. } => 37,
            Instruction::ExpSqrNeg { .. } => 38,
            Instruction::Builtin1 { .. } => 39,
            Instruction::Builtin2 { .. } => 40,
            Instruction::Builtin3 { .. } => 41,
            Instruction::Builtin4 { .. } => 42,
        }
    }

    /// This instruction with every read register `r` replaced by `t[r]`.
    pub fn map_reads(&self, t: &Vec<u32>) -> (r: Instruction)
        requires
            forall|k: int| 0 <= k < reads_of(*self).len() ==> reads_of(*self)[k] < t@.len(),
        ensures
            r == with_reads(*self, t@),
    {
        match *self {
            Instruction::End {} => *self,
            Instruction::Copy { dest, src } => {
                assert(reads_of(*self) == seq![src]);
                assert(reads_of(*self)[0] == src);
                Instruction::Copy { dest, src: t[src as usize] }
            }
            Instruction::Neg { dest, src } => {
                assert(reads_of(*self) == seq![src]);
                assert(reads_of(*self)[0] == src);
                Instruction::Neg { dest, src: t[src as usize] }
            }
            Instruction::SinCos { sin_dest, cos_dest, arg } => {
                assert(reads_of(*self) == seq![arg]);
                assert(reads_of(*self)[0] == arg);
                Instruction::SinCos { sin_dest, cos_dest, arg: t[arg as usize] }
            }
            Instruction::AsinAcos { asin_dest, acos_dest, arg } => {
                assert(reads_of(*self) == seq![arg]);
                assert(reads_of(*self)[0] == arg);
                Instruction::AsinAcos { asin_dest, acos_dest, arg: t[arg as usize] }
            }
            Instruction::Add { dest, a, b } => {
                assert(reads_of(*self) == seq![a, b]);
                assert(reads_of(*self)[0] == a);
                assert(reads_of(*self)[1] == b);
                Instruction::Add { dest, a: t[a as usize], b: t[b as usize] }
            }
            Instruction::Add3 { dest, a, b, c } => {
                assert(reads_of(*self) == seq![a, b, c]);
                assert(reads_of(*self)[0] == a);
                assert(reads_of(*self)[1] == b);
                assert(reads_of(*self)[2] == c);
                Instruction::Add3 { dest, a: t[a as usize], b: t[b as usize], c: t[c as usize] }
            }
            Instruction::Add4 { dest, a, b, c, d } => {
                assert(reads_of(*self) == seq![a, b, c, d]);
                assert(reads_of(*self)[0] == a);
                assert(reads_of(*self)[1] == b);
                assert(reads_of(*self)[2] == c);
                assert(reads_of(*self)[3] == d);
                Instruction::Add4 { dest, a: t[a as usize], b: t[b as usize], c: t[c as usize], d: t[d as usize] }
            }
            Instruction::AddN { dest, start_idx, count } => *self,
            Instruction::Mul { dest, a, b } => {
                assert(reads_of(*self) == seq![a, b]);
                assert(reads_of(*self)[0] == a);
                assert(reads_of(*self)[1] == b);
                Instruction::Mul { dest, a: t[a as usize], b: t[b as usize] }
            }
            Instruction::Mul3 { dest, a, b, c } => {
                assert(reads_of(*self) == seq![a, b, c]);
                assert(reads_of(*self)[0] == a);
                assert(reads_of(*self)[1] == b);
                assert(reads_of(*self)[2] == c);
                Instruction::Mul3 { dest, a: t[a as usize], b: t[b as usize], c: t[c as usize] }
            }
            Instruction::Mul4 { dest, a, b, c, d } => {
                assert(reads_of(*self) == seq![a, b, c, d]);
                assert(reads_of(*self)[0] == a);
                assert(reads_of(*self)[1] == b);
                assert(reads_of(*self)[2] == c);
                assert(reads_of(*self)[3] == d);
                Instruction::Mul4 { dest, a: t[a as usize], b: t[b as usize], c: t[c as usize], d: t[d as usize] }
            }
            Instruction::MulN { dest, start_idx, count } => *self,
            Instruction::Sub { dest, a, b } => {
                assert(reads_of(*self) == seq![a, b]);
                assert(reads_of(*self)[0] == a);
                assert(reads_of(*self)[1] == b);
                Instruction::Sub { dest, a: t[a as usize], b: t[b as usize] }
            }
            Instruction::Div { dest, num, den } => {
                assert(reads_of(*self) == seq![num, den]);
                assert(reads_of(*self)[0] == num);
                assert(reads_of(*self)[1] == den);
                Instruction::Div { dest, num: t[num as usize], den: t[den as usize] }
            }
            Instruction::Pow { dest, base, exp } => {
                assert(reads_of(*self) == seq![base, exp]);
                assert(reads_of(*self)[0] == base);
                assert(reads_of(*self)[1] == exp);
                Instruction::Pow { dest, base: t[base as usize], exp: t[exp as usize] }
            }
            Instruction::MulAdd { dest, a, b, c } => {
                assert(reads_of(*self) == seq![a, b, c]);
                assert(reads_of(*self)[0] == a);
                assert(reads_of(*self)[1] == b);
                assert(reads_of(*self)[2] == c);
                Instruction::MulAdd { dest, a: t[a as usize], b: t[b as usize], c: t[c as usize] }
            }
            Instruction::MulSub { dest, a, b, c } => {
                assert(reads_of(*self) == seq![a, b, c]);
                assert(reads_of(*self)[0] == a);
                assert(reads_of(*self)[1] == b);
                assert(reads_of(*self)[2] == c);
                Instruction::MulSub { dest, a: t[a as usize], b: t[b as usize], c: t[c as usize] }
            }
            Instruction::NegMul { dest, a, b } => {
                assert(reads_of(*self) == seq![a, b]);
                assert(reads_of(*self)[0] == a);
                assert(reads_of(*self)[1] == b);
                Instruction::NegMul { dest, a: t[a as usize], b: t[b as usize] }
            }
            Instruction::NegMulAdd { dest, a, b, c } => {
                assert(reads_of(*self) == seq![a, b, c]);
                assert(reads_of(*self)[0] == a);
                assert(reads_of(*self)[1] == b);
                assert(reads_of(*self)[2] == c);
                Instruction::NegMulAdd { dest, a: t[a as usize], b: t[b as usize], c: t[c as usize] }
            }
            Instruction::NegMulSub { dest, a, b, c } => {
                assert(reads_of(*self) == seq![a, b, c]);
                assert(reads_of(*self)[0] == a);
                assert(reads_of(*self)[1] == b);
                assert(reads_of(*self)[2] == c);
                Instruction::NegMulSub { dest, a: t[a as usize], b: t[b as usize], c: t[c as usize] }
            }
            Instruction::Square { dest, src } => {
                assert(reads_of(*self) == seq![src]);
                assert(reads_of(*self)[0] == src);
                Instruction::Square { dest, src: t[src as usize] }
            }
            Instruction::Cube { dest, src } => {
                assert(reads_of(*self) == seq![src]);
                assert(reads_of(*self)[0] == src);
                Instruction::Cube { dest, src: t[src as usize] }
            }
            Instruction::Pow4 { dest, src } => {
                assert(reads_of(*self) == seq![src]);
                assert(reads_of(*self)[0] == src);
                Instruction::Pow4 { dest, src: t[src as usize] }
            }
            Instruction::Pow3_2 { dest, src } => {
                assert(reads_of(*self) == seq![src]);
                assert(reads_of(*self)[0] == src);
                Instruction::Pow3_2 { dest, src: t[src as usize] }
            }
            Instruction::InvPow3_2 { dest, src } => {
                assert(reads_of(*self) == seq![src]);
                assert(reads_of(*self)[0] == src);
                Instruction::InvPow3_2 { dest, src: t[src as usize] }
            }
            Instruction::InvSqrt { dest, src } => {
                assert(reads_of(*self) == seq![src]);
                assert(reads_of(*self)[0] == src);
                Instruction::InvSqrt { dest, src: t[src as usize] }
            }
            Instruction::InvSquare { dest, src } => {
                assert(reads_of(*self) == seq![src]);
                assert(reads_of(*self)[0] == src);
                Instruction::InvSquare { dest, src: t[src as usize] }
            }
            Instruction::InvCube { dest, src } => {
                assert(reads_of(*self) == seq![src]);
                assert(reads_of(*self)[0] == src);
                Instruction::InvCube { dest, src: t[src as usize] }
            }
            Instruction::Recip { dest, src } => {
                assert(reads_of(*self) == seq![src]);
                assert(reads_of(*self)[0] == src);
                Instruction::Recip { dest, src: t[src as usize] }
            }
            Instruction::Powi { dest, src, n } => {
                assert(reads_of(*self) == seq![src]);
                assert(reads_of(*self)[0] == src);
                Instruction::Powi { dest, src: t[src as usize], n }
            }
            Instruction::Sin { dest, arg } => {
                assert(reads_of(*self) == seq![arg]);
                assert(reads_of(*self)[0] == arg);
                Instruction::Sin { dest, arg: t[arg as usize] }
            }
            Instruction::Cos { dest, arg } => {
                assert(reads_of(*self) == seq![arg]);
                assert(reads_of(*self)[0] == arg);
                Instruction::Cos { dest, arg: t[arg as usize] }
            }
            Instruction::Exp { dest, arg } => {
                assert(reads_of(*self) == seq![arg]);
                assert(reads_of(*self)[0] == arg);
                Instruction::Exp { dest, arg: t[arg as usize] }
            }
            Instruction::Ln { dest, arg } => {
                assert(reads_of(*self) == seq![arg]);
                assert(reads_of(*self)[0] == arg);
                Instruction::Ln { dest, arg: t[arg as usize] }
            }
            Instruction::Sqrt { dest, arg } => {
                assert(reads_of(*self) == seq![arg]);
                assert(reads_of(*self)[0] == arg);
                Instruction::Sqrt { dest, arg: t[arg as usize] }
            }
            Instruction::RecipExpm1 { dest, src } => {
                assert(reads_of(*self) == seq![src]);
                assert(reads_of(*self)[0] == src);
                Instruction::RecipExpm1 { dest, src: t[src as usize] }
            }
            Instruction::ExpSqr { dest, src } => {
                assert(reads_of(*self) == seq![src]);
                assert(reads_of(*self)[0] == src);
                Instruction::ExpSqr { dest, src: t[src as usize] }
            }
            Instruction::ExpSqrNeg { dest, src } => {
                assert(reads_of(*self) == seq![src]);
                assert(reads_of(*self)[0] == src);
                Instruction::ExpSqrNeg { dest, src: t[src as usize] }
            }
            Instruction::Builtin1 { dest, op, arg } => {
                assert(reads_of(*self) == seq![arg]);
                assert(reads_of(*self)[0] == arg);
                Instruction::Builtin1 { dest, op, arg: t[arg as usize] }
            }
            Instruction::Builtin2 { dest, op, arg1, arg2 } => {
                assert(reads_of(*self) == seq![arg1, arg2]);
                assert(reads_of(*self)[0] == arg1);
                assert(reads_of(*self)[1] == arg2);
                Instruction::Builtin2 { dest, op, arg1: t[arg1 as usize], arg2: t[arg2 as usize] }
            }
            Instruction::Builtin3 { dest, op, arg1, arg2, arg3 } => {
                assert(reads_of(*self) == seq![arg1, arg2, arg3]);
                assert(reads_of(*self)[0] == arg1);
                assert(reads_of(*self)[1] == arg2);
                assert(reads_of(*self)[2] == arg3);
                Instruction::Builtin3 { dest, op, arg1: t[arg1 as usize], arg2: t[arg2 as usize], arg3: t[arg3 as usize] }
            }
            Instruction::Builtin4 { dest, op, arg1, arg2, arg3, arg4 } => {
                assert(reads_of(*self) == seq![arg1, arg2, arg3, arg4]);
                assert(reads_of(*self)[0] == arg1);
                assert(reads_of(*self)[1] == arg2);
                assert(reads_of(*self)[2] == arg3);
                assert(reads_of(*self)[3] == arg4);
                Instruction::Builtin4 { dest, op, arg1: t[arg1 as usize], arg2: t[arg2 as usize], arg3: t[arg3 as usize], arg4: t[arg4 as usize] }
            }
        }
    }

    /// This instruction with every register `r` replaced by `t[r]`.
    pub fn map_regs(&self, t: &Vec<u32>) -> (r: Instruction)
        requires
            regs_below(*self, t@.len() as int),
        ensures
            r == with_regs(*self, t@),
    {
        match *self {
            Instruction::End {} => *self,
            Instruction::Copy { dest, src } => {
                assert(reads_of(*self)[0] == src);
                assert(writes_of(*self)[0] == dest);
                Instruction::Copy { dest: t[dest as usize], src: t[src as usize] }
            }
            Instruction::Neg { dest, src } => {
                assert(reads_of(*self)[0] == src);
                assert(writes_of(*self)[0] == dest);
                Instruction::Neg { dest: t[dest as usize], src: t[src as usize] }
            }
            Instruction::SinCos { sin_dest, cos_dest, arg } => {
                assert(reads_of(*self)[0] == arg);
                assert(writes_of(*self)[0] == sin_dest);
                assert(writes_of(*self)[1] == cos_dest);
                Instruction::SinCos { sin_dest: t[sin_dest as usize], cos_dest: t[cos_dest as usize], arg: t[arg as usize] }
            }
            Instruction::AsinAcos { asin_dest, acos_dest, arg } => {
                assert(reads_of(*self)[0] == arg);
                assert(writes_of(*self)[0] == asin_dest);
                assert(writes_of(*self)[1] == acos_dest);
                Instruction::AsinAcos { asin_dest: t[asin_dest as usize], acos_dest: t[acos_dest as usize], arg: t[arg as usize] }
            }
            Instruction::Add { dest, a, b } => {
                assert(reads_of(*self)[0] == a);
                assert(reads_of(*self)[1] == b);
                assert(writes_of(*self)[0] == dest);
                Instruction::Add { dest: t[dest as usize], a: t[a as usize], b: t[b as usize] }
            }
            Instruction::Add3 { dest, a, b, c } => {
                assert(reads_of(*self)[0] == a);
                assert(reads_of(*self)[1] == b);
                assert(reads_of(*self)[2] == c);
                assert(writes_of(*self)[0] == dest);
                Instruction::Add3 { dest: t[dest as usize], a: t[a as usize], b: t[b as usize], c: t[c as usize] }
            }
            Instruction::Add4 { dest, a, b, c, d } => {
                assert(reads_of(*self)[0] == a);
                assert(reads_of(*self)[1] == b);
                assert(reads_of(*self)[2] == c);
                assert(reads_of(*self)[3] == d);
                assert(writes_of(*self)[0] == dest);
                Instruction::Add4 { dest: t[dest as usize], a: t[a as usize], b: t[b as usize], c: t[c as usize], d: t[d as usize] }
            }
            Instruction::AddN { dest, start_idx, count } => {
                assert(writes_of(*self)[0] == dest);
                Instruction::AddN { dest: t[dest as usize], start_idx, count }
            }
            Instruction::Mul { dest, a, b } => {
                assert(reads_of(*self)[0] == a);
                assert(reads_of(*self)[1] == b);
                assert(writes_of(*self)[0] == dest);
                Instruction::Mul { dest: t[dest as usize], a: t[a as usize], b: t[b as usize] }
            }
            Instruction::Mul3 { dest, a, b, c } => {
                assert(reads_of(*self)[0] == a);
                assert(reads_of(*self)[1] == b);
                assert(reads_of(*self)[2] == c);
                assert(writes_of(*self)[0] == dest);
                Instruction::Mul3 { dest: t[dest as usize], a: t[a as usize], b: t[b as usize], c: t[c as usize] }
            }
            Instruction::Mul4 { dest, a, b, c, d } => {
                assert(reads_of(*self)[0] == a);
                assert(reads_of(*self)[1] == b);
                assert(reads_of(*self)[2] == c);
                assert(reads_of(*self)[3] == d);
                assert(writes_of(*self)[0] == dest);
                Instruction::Mul4 { dest: t[dest as usize], a: t[a as usize], b: t[b as usize], c: t[c as usize], d: t[d as usize] }
            }
            Instruction::MulN { dest, start_idx, count } => {
                assert(writes_of(*self)[0] == dest);
                Instruction::MulN { dest: t[dest as usize], start_idx, count }
            }
            Instruction::Sub { dest, a, b } => {
                assert(reads_of(*self)[0] == a);
                assert(reads_of(*self)[1] == b);
                assert(writes_of(*self)[0] == dest);
                Instruction::Sub { dest: t[dest as usize], a: t[a as usize], b: t[b as usize] }
            }
            Instruction::Div { dest, num, den } => {
                assert(reads_of(*self)[0] == num);
                assert(reads_of(*self)[1] == den);
                assert(writes_of(*self)[0] == dest);
                Instruction::Div { dest: t[dest as usize], num: t[num as usize], den: t[den as usize] }
            }
            Instruction::Pow { dest, base, exp } => {
                assert(reads_of(*self)[0] == base);
                assert(reads_of(*self)[1] == exp);
                assert(writes_of(*self)[0] == dest);
                Instruction::Pow { dest: t[dest as usize], base: t[base as usize], exp: t[exp as usize] }
            }
            Instruction::MulAdd { dest, a, b, c } => {
                assert(reads_of(*self)[0] == a);
                assert(reads_of(*self)[1] == b);
                assert(reads_of(*self)[2] == c);
                assert(writes_of(*self)[0] == dest);
                Instruction::MulAdd { dest: t[dest as usize], a: t[a as usize], b: t[b as usize], c: t[c as usize] }
            }
            Instruction::MulSub { dest, a, b, c } => {
                assert(reads_of(*self)[0] == a);
                assert(reads_of(*self)[1] == b);
                assert(reads_of(*self)[2] == c);
                assert(writes_of(*self)[0] == dest);
                Instruction::MulSub { dest: t[dest as usize], a: t[a as usize], b: t[b as usize], c: t[c as usize] }
            }
            Instruction::NegMul { dest, a, b } => {
                assert(reads_of(*self)[0] == a);
                assert(reads_of(*self)[1] == b);
                assert(writes_of(*self)[0] == dest);
                Instruction::NegMul { dest: t[dest as usize], a: t[a as usize], b: t[b as usize] }
            }
            Instruction::NegMulAdd { dest, a, b, c } => {
                assert(reads_of(*self)[0] == a);
                assert(reads_of(*self)[1] == b);
                assert(reads_of(*self)[2] == c);
                assert(writes_of(*self)[0] == dest);
                Instruction::NegMulAdd { dest: t[dest as usize], a: t[a as usize], b: t[b as usize], c: t[c as usize] }
            }
            Instruction::NegMulSub { dest, a, b, c } => {
                assert(reads_of(*self)[0] == a);
                assert(reads_of(*self)[1] == b);
                assert(reads_of(*self)[2] == c);
                assert(writes_of(*self)[0] == dest);
                Instruction::NegMulSub { dest: t[dest as usize], a: t[a as usize], b: t[b as usize], c: t[c as usize] }
            }
            Instruction::Square { dest, src } => {
                assert(reads_of(*self)[0] == src);
                assert(writes_of(*self)[0] == dest);
                Instruction::Square { dest: t[dest as usize], src: t[src as usize] }
            }
            Instruction::Cube { dest, src } => {
                assert(reads_of(*self)[0] == src);
                assert(writes_of(*self)[0] == dest);
                Instruction::Cube { dest: t[dest as usize], src: t[src as usize] }
            }
            Instruction::Pow4 { dest, src } => {
                assert(reads_of(*self)[0] == src);
                assert(writes_of(*self)[0] == dest);
                Instruction::Pow4 { dest: t[dest as usize], src: t[src as usize] }
            }
            Instruction::Pow3_2 { dest, src } => {
                assert(reads_of(*self)[0] == src);
                assert(writes_of(*self)[0] == dest);
                Instruction::Pow3_2 { dest: t[dest as usize], src: t[src as usize] }
            }
            Instruction::InvPow3_2 { dest, src } => {
                assert(reads_of(*self)[0] == src);
                assert(writes_of(*self)[0] == dest);
                Instruction::InvPow3_2 { dest: t[dest as usize], src: t[src as usize] }
            }
            Instruction::InvSqrt { dest, src } => {
                assert(reads_of(*self)[0] == src);
                assert(writes_of(*self)[0] == dest);
                Instruction::InvSqrt { dest: t[dest as usize], src: t[src as usize] }
            }
            Instruction::InvSquare { dest, src } => {
                assert(reads_of(*self)[0] == src);
                assert(writes_of(*self)[0] == dest);
                Instruction::InvSquare { dest: t[dest as usize], src: t[src as usize] }
            }
            Instruction::InvCube { dest, src } => {
                assert(reads_of(*self)[0] == src);
                assert(writes_of(*self)[0] == dest);
                Instruction::InvCube { dest: t[dest as usize], src: t[src as usize] }
            }
            Instruction::Recip { dest, src } => {
                assert(reads_of(*self)[0] == src);
                assert(writes_of(*self)[0] == dest);
                Instruction::Recip { dest: t[dest as usize], src: t[src as usize] }
            }
            Instruction::Powi { dest, src, n } => {
                assert(reads_of(*self)[0] == src);
                assert(writes_of(*self)[0] == dest);
                Instruction::Powi { dest: t[dest as usize], src: t[src as usize], n }
            }
            Instruction::Sin { dest, arg } => {
                assert(reads_of(*self)[0] == arg);
                assert(writes_of(*self)[0] == dest);
                Instruction::Sin { dest: t[dest as usize], arg: t[arg as usize] }
            }
            Instruction::Cos { dest, arg } => {
                assert(reads_of(*self)[0] == arg);
                assert(writes_of(*self)[0] == dest);
                Instruction::Cos { dest: t[dest as usize], arg: t[arg as usize] }
            }
            Instruction::Exp { dest, arg } => {
                assert(reads_of(*self)[0] == arg);
                assert(writes_of(*self)[0] == dest);
                Instruction::Exp { dest: t[dest as usize], arg: t[arg as usize] }
            }
            Instruction::Ln { dest, arg } => {
                assert(reads_of(*self)[0] == arg);
                assert(writes_of(*self)[0] == dest);
                Instruction::Ln { dest: t[dest as usize], arg: t[arg as usize] }
            }
            Instruction::Sqrt { dest, arg } => {
                assert(reads_of(*self)[0] == arg);
                assert(writes_of(*self)[0] == dest);
                Instruction::Sqrt { dest: t[dest as usize], arg: t[arg as usize] }
            }
            Instruction::RecipExpm1 { dest, src } => {
                assert(reads_of(*self)[0] == src);
                assert(writes_of(*self)[0] == dest);
                Instruction::RecipExpm1 { dest: t[dest as usize], src: t[src as usize] }
            }
            Instruction::ExpSqr { dest, src } => {
                assert(reads_of(*self)[0] == src);
                assert(writes_of(*self)[0] == dest);
                Instruction::ExpSqr { dest: t[dest as usize], src: t[src as usize] }
            }
            Instruction::ExpSqrNeg { dest, src } => {
                assert(reads_of(*self)[0] == src);
                assert(writes_of(*self)[0] == dest);
                Instruction::ExpSqrNeg { dest: t[dest as usize], src: t[src as usize] }
            }
            Instruction::Builtin1 { dest, op, arg } => {
                assert(reads_of(*self)[0] == arg);
                assert(writes_of(*self)[0] == dest);
                Instruction::Builtin1 { dest: t[dest as usize], op, arg: t[arg as usize] }
            }
            Instruction::Builtin2 { dest, op, arg1, arg2 } => {
                assert(reads_of(*self)[0] == arg1);
                assert(reads_of(*self)[1] == arg2);
                assert(writes_of(*self)[0] == dest);
                Instruction::Builtin2 { dest: t[dest as usize], op, arg1: t[arg1 as usize], arg2: t[arg2 as usize] }
            }
            Instruction::Builtin3 { dest, op, arg1, arg2, arg3 } => {
                assert(reads_of(*self)[0] == arg1);
                assert(reads_of(*self)[1] == arg2);
                assert(reads_of(*self)[2] == arg3);
                assert(writes_of(*self)[0] == dest);
                Instruction::Builtin3 { dest: t[dest as usize], op, arg1: t[arg1 as usize], arg2: t[arg2 as usize], arg3: t[arg3 as usize] }
            }
            Instruction::Builtin4 { dest, op, arg1, arg2, arg3, arg4 } => {
                assert(reads_of(*self)[0] == arg1);
                assert(reads_of(*self)[1] == arg2);
                assert(reads_of(*self)[2] == arg3);
                assert(reads_of(*self)[3] == arg4);
                assert(writes_of(*self)[0] == dest);
                Instruction::Builtin4 { dest: t[dest as usize], op, arg1: t[arg1 as usize], arg2: t[arg2 as usize], arg3: t[arg3 as usize], arg4: t[arg4 as usize] }
            }
        }
    }

    /// Append the flat encoding of this instruction to `bc`.
    pub fn encode_into(&self, bc: &mut Vec<u32>)
        ensures
            final(bc)@ == old(bc)@ + encode_of(*self),
    {
        let code = self.opcode();
        match *self {
            Instruction::End {} => {
                bc.push(code);
            }
            Instruction::Copy { dest, src } => {
                bc.push(code);
                bc.push(dest);
                bc.push(src);
            }
            Instruction::Neg { dest, src } => {
                bc.push(code);
                bc.push(dest);
                bc.push(src);
            }
            Instruction::SinCos { sin_dest, cos_dest, arg } => {
                bc.push(code);
                bc.push(sin_dest);
                bc.push(cos_dest);
                bc.push(arg);
            }
            Instruction::AsinAcos { asin_dest, acos_dest, arg } => {
                bc.push(code);
                bc.push(asin_dest);
                bc.push(acos_dest);
                bc.push(arg);
            }
            Instruction::Add { dest, a, b } => {
                bc.push(code);
                bc.push(dest);
                bc.push(a);
                bc.push(b);
            }
            Instruction::Add3 { dest, a, b, c } => {
                bc.push(code);
                bc.push(dest);
                bc.push(a);
                bc.push(b);
                bc.push(c);
            }
            Instruction::Add4 { dest, a, b, c, d } => {
                bc.push(code);
                bc.push(dest);
                bc.push(a);
                bc.push(b);
                bc.push(c);
                bc.push(d);
            }
            Instruction::AddN { dest, start_idx, count } => {
                bc.push(code);
                bc.push(dest);
                bc.push(start_idx);
                bc.push(count);
            }
            Instruction::Mul { dest, a, b } => {
                bc.push(code);
                bc.push(dest);
                bc.push(a);
                bc.push(b);
            }
            Instruction::Mul3 { dest, a, b, c } => {
                bc.push(code);
                bc.push(dest);
                bc.push(a);
                bc.push(b);
                bc.push(c);
            }
            Instruction::Mul4 { dest, a, b, c, d } => {
                bc.push(code);
                bc.push(dest);
                bc.push(a);
                bc.push(b);
                bc.push(c);
                bc.push(d);
            }
            Instruction::MulN { dest, start_idx, count } => {
                bc.push(code);
                bc.push(dest);
                bc.push(start_idx);
                bc.push(count);
            }
            Instruction::Sub { dest, a, b } => {
                bc.push(code);
                bc.push(dest);
                bc.push(a);
                bc.push(b);
            }
            Instruction::Div { dest, num, den } => {
                bc.push(code);
                bc.push(dest);
                bc.push(num);
                bc.push(den);
            }
            Instruction::Pow { dest, base, exp } => {
                bc.push(code);
                bc.push(dest);
                bc.push(base);
                bc.push(exp);
            }
            Instruction::MulAdd { dest, a, b, c } => {
                bc.push(code);
                bc.push(dest);
                bc.push(a);
                bc.push(b);
                bc.push(c);
            }
            Instruction::MulSub { dest, a, b, c } => {
                bc.push(code);
                bc.push(dest);
                bc.push(a);
                bc.push(b);
                bc.push(c);
            }
            Instruction::NegMul { dest, a, b } => {
                bc.push(code);
                bc.push(dest);
                bc.push(a);
                bc.push(b);
            }
            Instruction::NegMulAdd { dest, a, b, c } => {
                bc.push(code);
                bc.push(dest);
                bc.push(a);
                bc.push(b);
                bc.push(c);
            }
            Instruction::NegMulSub { dest, a, b, c } => {
                bc.push(code);
                bc.push(dest);
                bc.push(a);
                bc.push(b);
                bc.push(c);
            }
            Instruction::Square { dest, src } => {
                bc.push(code);
                bc.push(dest);
                bc.push(src);
            }
            Instruction::Cube { dest, src } => {
                bc.push(code);
                bc.push(dest);
                bc.push(src);
            }
            Instruction::Pow4 { dest, src } => {
                bc.push(code);
                bc.push(dest);
                bc.push(src);
            }
            Instruction::Pow3_2 { dest, src } => {
                bc.push(code);
                bc.push(dest);
                bc.push(src);
            }
            Instruction::InvPow3_2 { dest, src } => {
                bc.push(code);
                bc.push(dest);
                bc.push(src);
            }
            Instruction::InvSqrt { dest, src } => {
                bc.push(code);
                bc.push(dest);
                bc.push(src);
            }
            Instruction::InvSquare { dest, src } => {
                bc.push(code);
                bc.push(dest);
                bc.push(src);
            }
            Instruction::InvCube { dest, src } => {
                bc.push(code);
                bc.push(dest);
                bc.push(src);
            }
            Instruction::Recip { dest, src } => {
                bc.push(code);
                bc.push(dest);
                bc.push(src);
            }
            Instruction::Powi { dest, src, n } => {
                bc.push(code);
                bc.push(dest);
                bc.push(src);
                bc.push(n as u32);
            }
            Instruction::Sin { dest, arg } => {
                bc.push(code);
                bc.push(dest);
                bc.push(arg);
            }
            Instruction::Cos { dest, arg } => {
                bc.push(code);
                bc.push(dest);
                bc.push(arg);
            }
            Instruction::Exp { dest, arg } => {
                bc.push(code);
                bc.push(dest);
                bc.push(arg);
            }
            Instruction::Ln { dest, arg } => {
                bc.push(code);
                bc.push(dest);
                bc.push(arg);
            }
            Instruction::Sqrt { dest, arg } => {
                bc.push(code);
                bc.push(dest);
                bc.push(arg);
            }
            Instruction::RecipExpm1 { dest, src } => {
                bc.push(code);
                bc.push(dest);
                bc.push(src);
            }
            Instruction::ExpSqr { dest, src } => {
                bc.push(code);
                bc.push(dest);
                bc.push(src);
            }
            Instruction::ExpSqrNeg { dest, src } => {
                bc.push(code);
                bc.push(dest);
                bc.push(src);
            }
            Instruction::Builtin1 { dest, op, arg } => {
                bc.push(code);
                bc.push(dest);
                bc.push(op.code());
                bc.push(arg);
            }
            Instruction::Builtin2 { dest, op, arg1, arg2 } => {
                bc.push(code);
                bc.push(dest);
                bc.push(op.code());
                bc.push(arg1);
                bc.push(arg2);
            }
            Instruction::Builtin3 { dest, op, arg1, arg2, arg3 } => {
                bc.push(code);
                bc.push(dest);
                bc.push(op.code());
                bc.push(arg1);
                bc.push(arg2);
                bc.push(arg3);
            }
            Instruction::Builtin4 { dest, op, arg1, arg2, arg3, arg4 } => {
                bc.push(code);
                bc.push(dest);
                bc.push(op.code());
                bc.push(arg1);
                bc.push(arg2);
                bc.push(arg3);
                bc.push(arg4);
            }
        }
        assert(bc@ =~= old(bc)@ + encode_of(*self));
    }
}

} // verus!
