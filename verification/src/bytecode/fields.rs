//! The register fields of an instruction, in declaration order.

use vstd::prelude::*;
use super::instruction::{FnOp, Instruction};

verus! {

/// The registers an instruction names, written and read, in the order of its fields.
pub open spec fn fields_of(i: Instruction) -> Seq<u32> {
    match i {
        Instruction::End {} => Seq::<u32>::empty(),
        Instruction::Copy { dest, src } => seq![dest, src],
        Instruction::Neg { dest, src } => seq![dest, src],
        Instruction::SinCos { sin_dest, cos_dest, arg } => seq![sin_dest, cos_dest, arg],
        Instruction::AsinAcos { asin_dest, acos_dest, arg } => seq![asin_dest, acos_dest, arg],
        Instruction::Add { dest, a, b } => seq![dest, a, b],
        Instruction::Add3 { dest, a, b, c } => seq![dest, a, b, c],
        Instruction::Add4 { dest, a, b, c, d } => seq![dest, a, b, c, d],
        Instruction::AddN { dest, start_idx, count } => seq![dest],
        Instruction::Mul { dest, a, b } => seq![dest, a, b],
        Instruction::Mul3 { dest, a, b, c } => seq![dest, a, b, c],
        Instruction::Mul4 { dest, a, b, c, d } => seq![dest, a, b, c, d],
        Instruction::MulN { dest, start_idx, count } => seq![dest],
        Instruction::Sub { dest, a, b } => seq![dest, a, b],
        Instruction::Div { dest, num, den } => seq![dest, num, den],
        Instruction::Pow { dest, base, exp } => seq![dest, base, exp],
        Instruction::MulAdd { dest, a, b, c } => seq![dest, a, b, c],
        Instruction::MulSub { dest, a, b, c } => seq![dest, a, b, c],
        Instruction::NegMul { dest, a, b } => seq![dest, a, b],
        Instruction::NegMulAdd { dest, a, b, c } => seq![dest, a, b, c],
        Instruction::NegMulSub { dest, a, b, c } => seq![dest, a, b, c],
        Instruction::Square { dest, src } => seq![dest, src],
        Instruction::Cube { dest, src } => seq![dest, src],
        Instruction::Pow4 { dest, src } => seq![dest, src],
        Instruction::Pow3_2 { dest, src } => seq![dest, src],
        Instruction::InvPow3_2 { dest, src } => seq![dest, src],
        Instruction::InvSqrt { dest, src } => seq![dest, src],
        Instruction::InvSquare { dest, src } => seq![dest, src],
        Instruction::InvCube { dest, src } => seq![dest, src],
        Instruction::Recip { dest, src } => seq![dest, src],
        Instruction::Powi { dest, src, n } => seq![dest, src],
        Instruction::Sin { dest, arg } => seq![dest, arg],
        Instruction::Cos { dest, arg } => seq![dest, arg],
        Instruction::Exp { dest, arg } => seq![dest, arg],
        Instruction::Ln { dest, arg } => seq![dest, arg],
        Instruction::Sqrt { dest, arg } => seq![dest, arg],
        Instruction::RecipExpm1 { dest, src } => seq![dest, src],
        Instruction::ExpSqr { dest, src } => seq![dest, src],
        Instruction::ExpSqrNeg { dest, src } => seq![dest, src],
        Instruction::Builtin1 { dest, op, arg } => seq![dest, arg],
        Instruction::Builtin2 { dest, op, arg1, arg2 } => seq![dest, arg1, arg2],
        Instruction::Builtin3 { dest, op, arg1, arg2, arg3 } => seq![dest, arg1, arg2, arg3],
        Instruction::Builtin4 { dest, op, arg1, arg2, arg3, arg4 } => seq![dest, arg1, arg2, arg3, arg4],
    }
}

/// `i` with the registers of its fields replaced, in order, by `v`.
pub open spec fn with_fields(i: Instruction, v: Seq<u32>) -> Instruction {
    match i {
        Instruction::End {} => Instruction::End {},
        Instruction::Copy { dest, src } => Instruction::Copy { dest: v[0], src: v[1] },
        Instruction::Neg { dest, src } => Instruction::Neg { dest: v[0], src: v[1] },
        Instruction::SinCos { sin_dest, cos_dest, arg } => Instruction::SinCos { sin_dest: v[0], cos_dest: v[1], arg: v[2] },
        Instruction::AsinAcos { asin_dest, acos_dest, arg } => Instruction::AsinAcos { asin_dest: v[0], acos_dest: v[1], arg: v[2] },
        Instruction::Add { dest, a, b } => Instruction::Add { dest: v[0], a: v[1], b: v[2] },
        Instruction::Add3 { dest, a, b, c } => Instruction::Add3 { dest: v[0], a: v[1], b: v[2], c: v[3] },
        Instruction::Add4 { dest, a, b, c, d } => Instruction::Add4 { dest: v[0], a: v[1], b: v[2], c: v[3], d: v[4] },
        Instruction::AddN { dest, start_idx, count } => Instruction::AddN { dest: v[0], start_idx, count },
        Instruction::Mul { dest, a, b } => Instruction::Mul { dest: v[0], a: v[1], b: v[2] },
        Instruction::Mul3 { dest, a, b, c } => Instruction::Mul3 { dest: v[0], a: v[1], b: v[2], c: v[3] },
        Instruction::Mul4 { dest, a, b, c, d } => Instruction::Mul4 { dest: v[0], a: v[1], b: v[2], c: v[3], d: v[4] },
        Instruction::MulN { dest, start_idx, count } => Instruction::MulN { dest: v[0], start_idx, count },
        Instruction::Sub { dest, a, b } => Instruction::Sub { dest: v[0], a: v[1], b: v[2] },
        Instruction::Div { dest, num, den } => Instruction::Div { dest: v[0], num: v[1], den: v[2] },
        Instruction::Pow { dest, base, exp } => Instruction::Pow { dest: v[0], base: v[1], exp: v[2] },
        Instruction::MulAdd { dest, a, b, c } => Instruction::MulAdd { dest: v[0], a: v[1], b: v[2], c: v[3] },
        Instruction::MulSub { dest, a, b, c } => Instruction::MulSub { dest: v[0], a: v[1], b: v[2], c: v[3] },
        Instruction::NegMul { dest, a, b } => Instruction::NegMul { dest: v[0], a: v[1], b: v[2] },
        Instruction::NegMulAdd { dest, a, b, c } => Instruction::NegMulAdd { dest: v[0], a: v[1], b: v[2], c: v[3] },
        Instruction::NegMulSub { dest, a, b, c } => Instruction::NegMulSub { dest: v[0], a: v[1], b: v[2], c: v[3] },
        Instruction::Square { dest, src } => Instruction::Square { dest: v[0], src: v[1] },
        Instruction::Cube { dest, src } => Instruction::Cube { dest: v[0], src: v[1] },
        Instruction::Pow4 { dest, src } => Instruction::Pow4 { dest: v[0], src: v[1] },
        Instruction::Pow3_2 { dest, src } => Instruction::Pow3_2 { dest: v[0], src: v[1] },
        Instruction::InvPow3_2 { dest, src } => Instruction::InvPow3_2 { dest: v[0], src: v[1] },
        Instruction::InvSqrt { dest, src } => Instruction::InvSqrt { dest: v[0], src: v[1] },
        Instruction::InvSquare { dest, src } => Instruction::InvSquare { dest: v[0], src: v[1] },
        Instruction::InvCube { dest, src } => Instruction::InvCube { dest: v[0], src: v[1] },
        Instruction::Recip { dest, src } => Instruction::Recip { dest: v[0], src: v[1] },
        Instruction::Powi { dest, src, n } => Instruction::Powi { dest: v[0], src: v[1], n },
        Instruction::Sin { dest, arg } => Instruction::Sin { dest: v[0], arg: v[1] },
        Instruction::Cos { dest, arg } => Instruction::Cos { dest: v[0], arg: v[1] },
        Instruction::Exp { dest, arg } => Instruction::Exp { dest: v[0], arg: v[1] },
        Instruction::Ln { dest, arg } => Instruction::Ln { dest: v[0], arg: v[1] },
        Instruction::Sqrt { dest, arg } => Instruction::Sqrt { dest: v[0], arg: v[1] },
        Instruction::RecipExpm1 { dest, src } => Instruction::RecipExpm1 { dest: v[0], src: v[1] },
        Instruction::ExpSqr { dest, src } => Instruction::ExpSqr { dest: v[0], src: v[1] },
        Instruction::ExpSqrNeg { dest, src } => Instruction::ExpSqrNeg { dest: v[0], src: v[1] },
        Instruction::Builtin1 { dest, op, arg } => Instruction::Builtin1 { dest: v[0], op, arg: v[1] },
        Instruction::Builtin2 { dest, op, arg1, arg2 } => Instruction::Builtin2 { dest: v[0], op, arg1: v[1], arg2: v[2] },
        Instruction::Builtin3 { dest, op, arg1, arg2, arg3 } => Instruction::Builtin3 { dest: v[0], op, arg1: v[1], arg2: v[2], arg3: v[3] },
        Instruction::Builtin4 { dest, op, arg1, arg2, arg3, arg4 } => Instruction::Builtin4 { dest: v[0], op, arg1: v[1], arg2: v[2], arg3: v[3], arg4: v[4] },
    }
}

/// The registers `instr` names, in the order of its fields.
pub fn fields(instr: &Instruction) -> (r: Vec<u32>)
    ensures
        r@ == fields_of(*instr),
{
    match *instr {
        Instruction::End {} => Vec::new(),
        Instruction::Copy { dest, src } => {
            let mut v: Vec<u32> = Vec::new();
            v.push(dest);
            v.push(src);
            assert(v@ =~= seq![dest, src]);
            v
        },
        Instruction::Neg { dest, src } => {
            let mut v: Vec<u32> = Vec::new();
            v.push(dest);
            v.push(src);
            assert(v@ =~= seq![dest, src]);
            v
        },
        Instruction::SinCos { sin_dest, cos_dest, arg } => {
            let mut v: Vec<u32> = Vec::new();
            v.push(sin_dest);
            v.push(cos_dest);
            v.push(arg);
            assert(v@ =~= seq![sin_dest, cos_dest, arg]);
            v
        },
        Instruction::AsinAcos { asin_dest, acos_dest, arg } => {
            let mut v: Vec<u32> = Vec::new();
            v.push(asin_dest);
            v.push(acos_dest);
            v.push(arg);
            assert(v@ =~= seq![asin_dest, acos_dest, arg]);
            v
        },
        Instruction::Add { dest, a, b } => {
            let mut v: Vec<u32> = Vec::new();
            v.push(dest);
            v.push(a);
            v.push(b);
            assert(v@ =~= seq![dest, a, b]);
            v
        },
        Instruction::Add3 { dest, a, b, c } => {
            let mut v: Vec<u32> = Vec::new();
            v.push(dest);
            v.push(a);
            v.push(b);
            v.push(c);
            assert(v@ =~= seq![dest, a, b, c]);
            v
        },
        Instruction::Add4 { dest, a, b, c, d } => {
            let mut v: Vec<u32> = Vec::new();
            v.push(dest);
            v.push(a);
            v.push(b);
            v.push(c);
            v.push(d);
            assert(v@ =~= seq![dest, a, b, c, d]);
            v
        },
        Instruction::AddN { dest, start_idx, count } => {
            let mut v: Vec<u32> = Vec::new();
            v.push(dest);
            assert(v@ =~= seq![dest]);
            v
        },
        Instruction::Mul { dest, a, b } => {
            let mut v: Vec<u32> = Vec::new();
            v.push(dest);
            v.push(a);
            v.push(b);
            assert(v@ =~= seq![dest, a, b]);
            v
        },
        Instruction::Mul3 { dest, a, b, c } => {
            let mut v: Vec<u32> = Vec::new();
            v.push(dest);
            v.push(a);
            v.push(b);
            v.push(c);
            assert(v@ =~= seq![dest, a, b, c]);
            v
        },
        Instruction::Mul4 { dest, a, b, c, d } => {
            let mut v: Vec<u32> = Vec::new();
            v.push(dest);
            v.push(a);
            v.push(b);
            v.push(c);
            v.push(d);
            assert(v@ =~= seq![dest, a, b, c, d]);
            v
        },
        Instruction::MulN { dest, start_idx, count } => {
            let mut v: Vec<u32> = Vec::new();
            v.push(dest);
            assert(v@ =~= seq![dest]);
            v
        },
        Instruction::Sub { dest, a, b } => {
            let mut v: Vec<u32> = Vec::new();
            v.push(dest);
            v.push(a);
            v.push(b);
            assert(v@ =~= seq![dest, a, b]);
            v
        },
        Instruction::Div { dest, num, den } => {
            let mut v: Vec<u32> = Vec::new();
            v.push(dest);
            v.push(num);
            v.push(den);
            assert(v@ =~= seq![dest, num, den]);
            v
        },
        Instruction::Pow { dest, base, exp } => {
            let mut v: Vec<u32> = Vec::new();
            v.push(dest);
            v.push(base);
            v.push(exp);
            assert(v@ =~= seq![dest, base, exp]);
            v
        },
        Instruction::MulAdd { dest, a, b, c } => {
            let mut v: Vec<u32> = Vec::new();
            v.push(dest);
            v.push(a);
            v.push(b);
            v.push(c);
            assert(v@ =~= seq![dest, a, b, c]);
            v
        },
        Instruction::MulSub { dest, a, b, c } => {
            let mut v: Vec<u32> = Vec::new();
            v.push(dest);
            v.push(a);
            v.push(b);
            v.push(c);
            assert(v@ =~= seq![dest, a, b, c]);
            v
        },
        Instruction::NegMul { dest, a, b } => {
            let mut v: Vec<u32> = Vec::new();
            v.push(dest);
            v.push(a);
            v.push(b);
            assert(v@ =~= seq![dest, a, b]);
            v
        },
        Instruction::NegMulAdd { dest, a, b, c } => {
            let mut v: Vec<u32> = Vec::new();
            v.push(dest);
            v.push(a);
            v.push(b);
            v.push(c);
            assert(v@ =~= seq![dest, a, b, c]);
            v
        },
        Instruction::NegMulSub { dest, a, b, c } => {
            let mut v: Vec<u32> = Vec::new();
            v.push(dest);
            v.push(a);
            v.push(b);
            v.push(c);
            assert(v@ =~= seq![dest, a, b, c]);
            v
        },
        Instruction::Square { dest, src } => {
            let mut v: Vec<u32> = Vec::new();
            v.push(dest);
            v.push(src);
            assert(v@ =~= seq![dest, src]);
            v
        },
        Instruction::Cube { dest, src } => {
            let mut v: Vec<u32> = Vec::new();
            v.push(dest);
            v.push(src);
            assert(v@ =~= seq![dest, src]);
            v
        },
        Instruction::Pow4 { dest, src } => {
            let mut v: Vec<u32> = Vec::new();
            v.push(dest);
            v.push(src);
            assert(v@ =~= seq![dest, src]);
            v
        },
        Instruction::Pow3_2 { dest, src } => {
            let mut v: Vec<u32> = Vec::new();
            v.push(dest);
            v.push(src);
            assert(v@ =~= seq![dest, src]);
            v
        },
        Instruction::InvPow3_2 { dest, src } => {
            let mut v: Vec<u32> = Vec::new();
            v.push(dest);
            v.push(src);
            assert(v@ =~= seq![dest, src]);
            v
        },
        Instruction::InvSqrt { dest, src } => {
            let mut v: Vec<u32> = Vec::new();
            v.push(dest);
            v.push(src);
            assert(v@ =~= seq![dest, src]);
            v
        },
        Instruction::InvSquare { dest, src } => {
            let mut v: Vec<u32> = Vec::new();
            v.push(dest);
            v.push(src);
            assert(v@ =~= seq![dest, src]);
            v
        },
        Instruction::InvCube { dest, src } => {
            let mut v: Vec<u32> = Vec::new();
            v.push(dest);
            v.push(src);
            assert(v@ =~= seq![dest, src]);
            v
        },
        Instruction::Recip { dest, src } => {
            let mut v: Vec<u32> = Vec::new();
            v.push(dest);
            v.push(src);
            assert(v@ =~= seq![dest, src]);
            v
        },
        Instruction::Powi { dest, src, n } => {
            let mut v: Vec<u32> = Vec::new();
            v.push(dest);
            v.push(src);
            assert(v@ =~= seq![dest, src]);
            v
        },
        Instruction::Sin { dest, arg } => {
            let mut v: Vec<u32> = Vec::new();
            v.push(dest);
            v.push(arg);
            assert(v@ =~= seq![dest, arg]);
            v
        },
        Instruction::Cos { dest, arg } => {
            let mut v: Vec<u32> = Vec::new();
            v.push(dest);
            v.push(arg);
            assert(v@ =~= seq![dest, arg]);
            v
        },
        Instruction::Exp { dest, arg } => {
            let mut v: Vec<u32> = Vec::new();
            v.push(dest);
            v.push(arg);
            assert(v@ =~= seq![dest, arg]);
            v
        },
        Instruction::Ln { dest, arg } => {
            let mut v: Vec<u32> = Vec::new();
            v.push(dest);
            v.push(arg);
            assert(v@ =~= seq![dest, arg]);
            v
        },
        Instruction::Sqrt { dest, arg } => {
            let mut v: Vec<u32> = Vec::new();
            v.push(dest);
            v.push(arg);
            assert(v@ =~= seq![dest, arg]);
            v
        },
        Instruction::RecipExpm1 { dest, src } => {
            let mut v: Vec<u32> = Vec::new();
            v.push(dest);
            v.push(src);
            assert(v@ =~= seq![dest, src]);
            v
        },
        Instruction::ExpSqr { dest, src } => {
            let mut v: Vec<u32> = Vec::new();
            v.push(dest);
            v.push(src);
            assert(v@ =~= seq![dest, src]);
            v
        },
        Instruction::ExpSqrNeg { dest, src } => {
            let mut v: Vec<u32> = Vec::new();
            v.push(dest);
            v.push(src);
            assert(v@ =~= seq![dest, src]);
            v
        },
        Instruction::Builtin1 { dest, op, arg } => {
            let mut v: Vec<u32> = Vec::new();
            v.push(dest);
            v.push(arg);
            assert(v@ =~= seq![dest, arg]);
            v
        },
        Instruction::Builtin2 { dest, op, arg1, arg2 } => {
            let mut v: Vec<u32> = Vec::new();
            v.push(dest);
            v.push(arg1);
            v.push(arg2);
            assert(v@ =~= seq![dest, arg1, arg2]);
            v
        },
        Instruction::Builtin3 { dest, op, arg1, arg2, arg3 } => {
            let mut v: Vec<u32> = Vec::new();
            v.push(dest);
            v.push(arg1);
            v.push(arg2);
            v.push(arg3);
            assert(v@ =~= seq![dest, arg1, arg2, arg3]);
            v
        },
        Instruction::Builtin4 { dest, op, arg1, arg2, arg3, arg4 } => {
            let mut v: Vec<u32> = Vec::new();
            v.push(dest);
            v.push(arg1);
            v.push(arg2);
            v.push(arg3);
            v.push(arg4);
            assert(v@ =~= seq![dest, arg1, arg2, arg3, arg4]);
            v
        },
    }
}

/// `instr` with the registers of its fields replaced, in order, by `v`.
pub fn replace_fields(instr: &Instruction, v: &Vec<u32>) -> (r: Instruction)
    requires
        v@.len() == fields_of(*instr).len(),
    ensures
        r == with_fields(*instr, v@),
{
    match *instr {
        Instruction::End {} => Instruction::End {},
        Instruction::Copy { dest, src } => Instruction::Copy { dest: v[0], src: v[1] },
        Instruction::Neg { dest, src } => Instruction::Neg { dest: v[0], src: v[1] },
        Instruction::SinCos { sin_dest, cos_dest, arg } => Instruction::SinCos { sin_dest: v[0], cos_dest: v[1], arg: v[2] },
        Instruction::AsinAcos { asin_dest, acos_dest, arg } => Instruction::AsinAcos { asin_dest: v[0], acos_dest: v[1], arg: v[2] },
        Instruction::Add { dest, a, b } => Instruction::Add { dest: v[0], a: v[1], b: v[2] },
        Instruction::Add3 { dest, a, b, c } => Instruction::Add3 { dest: v[0], a: v[1], b: v[2], c: v[3] },
        Instruction::Add4 { dest, a, b, c, d } => Instruction::Add4 { dest: v[0], a: v[1], b: v[2], c: v[3], d: v[4] },
        Instruction::AddN { dest, start_idx, count } => Instruction::AddN { dest: v[0], start_idx, count },
        Instruction::Mul { dest, a, b } => Instruction::Mul { dest: v[0], a: v[1], b: v[2] },
        Instruction::Mul3 { dest, a, b, c } => Instruction::Mul3 { dest: v[0], a: v[1], b: v[2], c: v[3] },
        Instruction::Mul4 { dest, a, b, c, d } => Instruction::Mul4 { dest: v[0], a: v[1], b: v[2], c: v[3], d: v[4] },
        Instruction::MulN { dest, start_idx, count } => Instruction::MulN { dest: v[0], start_idx, count },
        Instruction::Sub { dest, a, b } => Instruction::Sub { dest: v[0], a: v[1], b: v[2] },
        Instruction::Div { dest, num, den } => Instruction::Div { dest: v[0], num: v[1], den: v[2] },
        Instruction::Pow { dest, base, exp } => Instruction::Pow { dest: v[0], base: v[1], exp: v[2] },
        Instruction::MulAdd { dest, a, b, c } => Instruction::MulAdd { dest: v[0], a: v[1], b: v[2], c: v[3] },
        Instruction::MulSub { dest, a, b, c } => Instruction::MulSub { dest: v[0], a: v[1], b: v[2], c: v[3] },
        Instruction::NegMul { dest, a, b } => Instruction::NegMul { dest: v[0], a: v[1], b: v[2] },
        Instruction::NegMulAdd { dest, a, b, c } => Instruction::NegMulAdd { dest: v[0], a: v[1], b: v[2], c: v[3] },
        Instruction::NegMulSub { dest, a, b, c } => Instruction::NegMulSub { dest: v[0], a: v[1], b: v[2], c: v[3] },
        Instruction::Square { dest, src } => Instruction::Square { dest: v[0], src: v[1] },
        Instruction::Cube { dest, src } => Instruction::Cube { dest: v[0], src: v[1] },
        Instruction::Pow4 { dest, src } => Instruction::Pow4 { dest: v[0], src: v[1] },
        Instruction::Pow3_2 { dest, src } => Instruction::Pow3_2 { dest: v[0], src: v[1] },
        Instruction::InvPow3_2 { dest, src } => Instruction::InvPow3_2 { dest: v[0], src: v[1] },
        Instruction::InvSqrt { dest, src } => Instruction::InvSqrt { dest: v[0], src: v[1] },
        Instruction::InvSquare { dest, src } => Instruction::InvSquare { dest: v[0], src: v[1] },
        Instruction::InvCube { dest, src } => Instruction::InvCube { dest: v[0], src: v[1] },
        Instruction::Recip { dest, src } => Instruction::Recip { dest: v[0], src: v[1] },
        Instruction::Powi { dest, src, n } => Instruction::Powi { dest: v[0], src: v[1], n },
        Instruction::Sin { dest, arg } => Instruction::Sin { dest: v[0], arg: v[1] },
        Instruction::Cos { dest, arg } => Instruction::Cos { dest: v[0], arg: v[1] },
        Instruction::Exp { dest, arg } => Instruction::Exp { dest: v[0], arg: v[1] },
        Instruction::Ln { dest, arg } => Instruction::Ln { dest: v[0], arg: v[1] },
        Instruction::Sqrt { dest, arg } => Instruction::Sqrt { dest: v[0], arg: v[1] },
        Instruction::RecipExpm1 { dest, src } => Instruction::RecipExpm1 { dest: v[0], src: v[1] },
        Instruction::ExpSqr { dest, src } => Instruction::ExpSqr { dest: v[0], src: v[1] },
        Instruction::ExpSqrNeg { dest, src } => Instruction::ExpSqrNeg { dest: v[0], src: v[1] },
        Instruction::Builtin1 { dest, op, arg } => Instruction::Builtin1 { dest: v[0], op, arg: v[1] },
        Instruction::Builtin2 { dest, op, arg1, arg2 } => Instruction::Builtin2 { dest: v[0], op, arg1: v[1], arg2: v[2] },
        Instruction::Builtin3 { dest, op, arg1, arg2, arg3 } => Instruction::Builtin3 { dest: v[0], op, arg1: v[1], arg2: v[2], arg3: v[3] },
        Instruction::Builtin4 { dest, op, arg1, arg2, arg3, arg4 } => Instruction::Builtin4 { dest: v[0], op, arg1: v[1], arg2: v[2], arg3: v[3], arg4: v[4] },
    }
}

} // verus!
