//! Peephole fusion of adjacent instruction pairs.
//!
//! Each rule looks at an instruction `prev` and the instruction `next` that
//! follows it. When `next` reads the temporary that `prev` writes, and that
//! temporary has no other use, the pair is replaced by one instruction (or by
//! two for the three- and four-operand sums). The rules are stated below as a
//! table over the two instructions and the use counts.

use vstd::prelude::*;
use super::instruction::{Instruction, FnOp, reads_of, writes_of};

verus! {

/// What a fusion produces: one instruction, or two in order.
#[derive(Clone, Copy, Debug, PartialEq, Eq, Structural)]
pub enum FuseResult {
    One(Instruction),
    Two(Instruction, Instruction),
}

/// The instructions of a fusion result, in order.
pub open spec fn result_instrs(r: FuseResult) -> Seq<Instruction> {
    match r {
        FuseResult::One(a) => seq![a],
        FuseResult::Two(a, b) => seq![a, b],
    }
}

impl FuseResult {
    /// Append the instructions of the result to `out`.
    pub fn push_to(self, out: &mut Vec<Instruction>)
        ensures
            final(out)@ == old(out)@ + result_instrs(self),
    {
        match self {
            FuseResult::One(a) => {
                out.push(a);
            },
            FuseResult::Two(a, b) => {
                out.push(a);
                out.push(b);
            },
        }
        assert(out@ =~= old(out)@ + result_instrs(self));
    }
}

/// Whether register `r` is used exactly once.
pub open spec fn single(uc: Seq<usize>, r: u32) -> bool {
    uc[r as int] == 1
}

/// Every register `i` writes has a use count.
pub open spec fn counted(i: Instruction, uc: Seq<usize>) -> bool {
    forall|k: int| 0 <= k < writes_of(i).len() ==> #[trigger] writes_of(i)[k] < uc.len()
}

// ---------------------------------------------------------------------------
// Negation
// ---------------------------------------------------------------------------

/// `t = -s` followed by a use of `t`: a product becomes a negated product,
/// `exp(-s)` the negated exponential, and `(-s)^2`, `|-s|` drop the negation.
pub open spec fn negation_rule(prev: Instruction, next: Instruction, uc: Seq<usize>) -> Option<FuseResult> {
    match prev {
        Instruction::Neg { dest: t, src: s } => match next {
            Instruction::Mul { dest, a, b } => {
                if !single(uc, t) {
                    None
                } else if a == t {
                    Some(FuseResult::One(Instruction::NegMul { dest, a: s, b }))
                } else if b == t {
                    Some(FuseResult::One(Instruction::NegMul { dest, a: s, b: a }))
                } else {
                    None
                }
            },
            Instruction::Exp { dest, arg } => if arg == t && single(uc, t) {
                Some(FuseResult::One(Instruction::Builtin1 { dest, op: FnOp::ExpNeg, arg: s }))
            } else {
                None
            },
            Instruction::Square { dest, src } => if src == t && single(uc, t) {
                Some(FuseResult::One(Instruction::Square { dest, src: s }))
            } else {
                None
            },
            Instruction::Builtin1 { dest, op: FnOp::Abs, arg } => if arg == t && single(uc, t) {
                Some(FuseResult::One(Instruction::Builtin1 { dest, op: FnOp::Abs, arg: s }))
            } else {
                None
            },
            _ => None,
        },
        _ => None,
    }
}

/// The fusions of a negation with the instruction after it, as `negation_rule` states.
pub fn try_fuse_negation(prev: &Instruction, next: &Instruction, use_count: &Vec<usize>) -> (r: Option<FuseResult>)
    requires
        counted(*prev, use_count@),
    ensures
        r == negation_rule(*prev, *next, use_count@),
{
    match *prev {
        Instruction::Neg { dest, src } => {
            assert(writes_of(*prev)[0] == dest);
            fuse_neg_with_next(next, dest, src, use_count)
        },
        _ => None,
    }
}

/// The fusions of `neg_dest = -neg_src` with `next`.
fn fuse_neg_with_next(next: &Instruction, neg_dest: u32, neg_src: u32, use_count: &Vec<usize>) -> (r: Option<FuseResult>)
    requires
        neg_dest < use_count@.len(),
    ensures
        r == negation_rule(Instruction::Neg { dest: neg_dest, src: neg_src }, *next, use_count@),
{
    let single_use = use_count[neg_dest as usize] == 1;
    match *next {
        Instruction::Mul { dest, a, b } => {
            if !single_use {
                None
            } else if a == neg_dest {
                Some(FuseResult::One(Instruction::NegMul { dest, a: neg_src, b }))
            } else if b == neg_dest {
                Some(FuseResult::One(Instruction::NegMul { dest, a: neg_src, b: a }))
            } else {
                None
            }
        },
        Instruction::Exp { dest, arg } => {
            if arg == neg_dest && single_use {
                Some(FuseResult::One(Instruction::Builtin1 { dest, op: FnOp::ExpNeg, arg: neg_src }))
            } else {
                None
            }
        },
        Instruction::Square { dest, src } => {
            if src == neg_dest && single_use {
                Some(FuseResult::One(Instruction::Square { dest, src: neg_src }))
            } else {
                None
            }
        },
        Instruction::Builtin1 { dest, op: FnOp::Abs, arg } => {
            if arg == neg_dest && single_use {
                Some(FuseResult::One(Instruction::Builtin1 { dest, op: FnOp::Abs, arg: neg_src }))
            } else {
                None
            }
        },
        _ => None,
    }
}

// ---------------------------------------------------------------------------
// Multiply-add
// ---------------------------------------------------------------------------

/// `m*n + c` (or `-(m*n) + c` when `neg`) into `dest`.
pub open spec fn mul_add_of(neg: bool, dest: u32, m: u32, n: u32, c: u32) -> Instruction {
    if neg {
        Instruction::NegMulAdd { dest, a: m, b: n, c }
    } else {
        Instruction::MulAdd { dest, a: m, b: n, c }
    }
}

/// A product `t = m*n` (negated when `neg`) consumed by a sum or difference.
pub open spec fn mul_add_next_rule(next: Instruction, t: u32, m: u32, n: u32, neg: bool) -> Option<FuseResult> {
    match next {
        Instruction::Add { dest, a, b } => {
            if a == t {
                Some(FuseResult::One(mul_add_of(neg, dest, m, n, b)))
            } else if b == t {
                Some(FuseResult::One(mul_add_of(neg, dest, m, n, a)))
            } else {
                None
            }
        },
        Instruction::Sub { dest, a, b } => {
            if a == t {
                Some(FuseResult::One(if neg {
                    Instruction::NegMulSub { dest, a: m, b: n, c: b }
                } else {
                    Instruction::MulSub { dest, a: m, b: n, c: b }
                }))
            } else if b == t {
                Some(FuseResult::One(mul_add_of(!neg, dest, m, n, a)))
            } else {
                None
            }
        },
        Instruction::Add3 { dest, a, b, c } => {
            if a == t {
                Some(FuseResult::Two(mul_add_of(neg, t, m, n, b), Instruction::Add { dest, a: t, b: c }))
            } else if b == t {
                Some(FuseResult::Two(mul_add_of(neg, t, m, n, a), Instruction::Add { dest, a: t, b: c }))
            } else if c == t {
                Some(FuseResult::Two(mul_add_of(neg, t, m, n, a), Instruction::Add { dest, a: t, b: b }))
            } else {
                None
            }
        },
        Instruction::Add4 { dest, a, b, c, d } => {
            if a == t {
                Some(FuseResult::Two(mul_add_of(neg, t, m, n, b), Instruction::Add3 { dest, a: t, b: c, c: d }))
            } else if b == t {
                Some(FuseResult::Two(mul_add_of(neg, t, m, n, a), Instruction::Add3 { dest, a: t, b: c, c: d }))
            } else if c == t {
                Some(FuseResult::Two(mul_add_of(neg, t, m, n, a), Instruction::Add3 { dest, a: t, b: b, c: d }))
            } else if d == t {
                Some(FuseResult::Two(mul_add_of(neg, t, m, n, a), Instruction::Add3 { dest, a: t, b: b, c: c }))
            } else {
                None
            }
        },
        _ => None,
    }
}

/// A single-use product (or negated product) followed by a sum that reads it.
pub open spec fn mul_add_rule(prev: Instruction, next: Instruction, uc: Seq<usize>) -> Option<FuseResult> {
    match prev {
        Instruction::Mul { dest, a, b } => if single(uc, dest) { mul_add_next_rule(next, dest, a, b, false) } else { None },
        Instruction::NegMul { dest, a, b } => if single(uc, dest) { mul_add_next_rule(next, dest, a, b, true) } else { None },
        _ => None,
    }
}

/// The operands of a product about to be fused into a sum.
#[derive(Clone, Copy)]
pub struct MulAddParams {
    pub mul_dest: u32,
    pub mul_a: u32,
    pub mul_b: u32,
    pub is_neg: bool,
}

/// `m*n + c` (or `-(m*n) + c`) into `dest`.
fn mul_add_exec(neg: bool, dest: u32, m: u32, n: u32, c: u32) -> (r: Instruction)
    ensures
        r == mul_add_of(neg, dest, m, n, c),
{
    if neg {
        Instruction::NegMulAdd { dest, a: m, b: n, c }
    } else {
        Instruction::MulAdd { dest, a: m, b: n, c }
    }
}

/// The fusions of a single-use product with the sum after it, as `mul_add_rule` states.
pub fn try_fuse_mul_add(prev: &Instruction, next: &Instruction, use_count: &Vec<usize>) -> (r: Option<FuseResult>)
    requires
        counted(*prev, use_count@),
    ensures
        r == mul_add_rule(*prev, *next, use_count@),
{
    match *prev {
        Instruction::Mul { dest, a, b } => {
            assert(writes_of(*prev)[0] == dest);
            if use_count[dest as usize] != 1 {
                return None;
            }
            handle_mul_add_fusion(next, MulAddParams { mul_dest: dest, mul_a: a, mul_b: b, is_neg: false })
        },
        Instruction::NegMul { dest, a, b } => {
            assert(writes_of(*prev)[0] == dest);
            if use_count[dest as usize] != 1 {
                return None;
            }
            handle_mul_add_fusion(next, MulAddParams { mul_dest: dest, mul_a: a, mul_b: b, is_neg: true })
        },
        _ => None,
    }
}

/// The fusions of the product `params` with `next`.
fn handle_mul_add_fusion(next: &Instruction, params: MulAddParams) -> (r: Option<FuseResult>)
    ensures
        r == mul_add_next_rule(*next, params.mul_dest, params.mul_a, params.mul_b, params.is_neg),
{
    match *next {
        Instruction::Add { dest, a, b } => fuse_with_add(dest, a, b, params),
        Instruction::Sub { dest, a, b } => fuse_with_sub(dest, a, b, params),
        Instruction::Add3 { dest, a, b, c } => fuse_with_add3(dest, a, b, c, params),
        Instruction::Add4 { dest, a, b, c, d } => fuse_with_add4(dest, a, b, c, d, params),
        _ => None,
    }
}

/// The product fused into `dest = a + b`.
fn fuse_with_add(dest: u32, a: u32, b: u32, params: MulAddParams) -> (r: Option<FuseResult>)
    ensures
        r == mul_add_next_rule(Instruction::Add { dest, a, b }, params.mul_dest, params.mul_a, params.mul_b, params.is_neg),
{
    if a == params.mul_dest {
        Some(FuseResult::One(mul_add_exec(params.is_neg, dest, params.mul_a, params.mul_b, b)))
    } else if b == params.mul_dest {
        Some(FuseResult::One(mul_add_exec(params.is_neg, dest, params.mul_a, params.mul_b, a)))
    } else {
        None
    }
}

/// The product fused into `dest = a - b`.
fn fuse_with_sub(dest: u32, a: u32, b: u32, params: MulAddParams) -> (r: Option<FuseResult>)
    ensures
        r == mul_add_next_rule(Instruction::Sub { dest, a, b }, params.mul_dest, params.mul_a, params.mul_b, params.is_neg),
{
    if a == params.mul_dest {
        Some(FuseResult::One(if params.is_neg {
            Instruction::NegMulSub { dest, a: params.mul_a, b: params.mul_b, c: b }
        } else {
            Instruction::MulSub { dest, a: params.mul_a, b: params.mul_b, c: b }
        }))
    } else if b == params.mul_dest {
        Some(FuseResult::One(mul_add_exec(!params.is_neg, dest, params.mul_a, params.mul_b, a)))
    } else {
        None
    }
}

/// The product fused into `dest = a + b + c`: a multiply-add into the product's
/// register, then a two-operand sum.
fn fuse_with_add3(dest: u32, a: u32, b: u32, c: u32, params: MulAddParams) -> (r: Option<FuseResult>)
    ensures
        r == mul_add_next_rule(Instruction::Add3 { dest, a, b, c }, params.mul_dest, params.mul_a, params.mul_b, params.is_neg),
{
    let t = params.mul_dest;
    let (other1, other2) = if a == t {
        (b, c)
    } else if b == t {
        (a, c)
    } else if c == t {
        (a, b)
    } else {
        return None;
    };
    Some(FuseResult::Two(
        mul_add_exec(params.is_neg, t, params.mul_a, params.mul_b, other1),
        Instruction::Add { dest, a: t, b: other2 },
    ))
}

/// The product fused into `dest = a + b + c + d`: a multiply-add into the
/// product's register, then a three-operand sum.
fn fuse_with_add4(dest: u32, a: u32, b: u32, c: u32, d: u32, params: MulAddParams) -> (r: Option<FuseResult>)
    ensures
        r == mul_add_next_rule(Instruction::Add4 { dest, a, b, c, d }, params.mul_dest, params.mul_a, params.mul_b, params.is_neg),
{
    let t = params.mul_dest;
    let (other1, other2, other3) = if a == t {
        (b, c, d)
    } else if b == t {
        (a, c, d)
    } else if c == t {
        (a, b, d)
    } else if d == t {
        (a, b, c)
    } else {
        return None;
    };
    Some(FuseResult::Two(
        mul_add_exec(params.is_neg, t, params.mul_a, params.mul_b, other1),
        Instruction::Add3 { dest, a: t, b: other2, c: other3 },
    ))
}

// ---------------------------------------------------------------------------
// Chains of two one-operand instructions
// ---------------------------------------------------------------------------

/// The one-operand instructions the chain rules rewrite.
#[derive(Clone, Copy, Debug, PartialEq, Eq, Structural)]
pub enum Step {
    Copy,
    Neg,
    Square,
    Cube,
    Pow3_2,
    InvPow3_2,
    InvSqrt,
    InvSquare,
    InvCube,
    Recip,
    RecipExpm1,
    Exp,
    Sqrt,
    Call(FnOp),
}

/// `i` as a one-operand step: the step, the register it writes and the register it reads.
pub open spec fn step_of(i: Instruction) -> Option<(Step, u32, u32)> {
    match i {
        Instruction::Copy { dest, src } => Some((Step::Copy, dest, src)),
        Instruction::Neg { dest, src } => Some((Step::Neg, dest, src)),
        Instruction::Square { dest, src } => Some((Step::Square, dest, src)),
        Instruction::Cube { dest, src } => Some((Step::Cube, dest, src)),
        Instruction::Pow3_2 { dest, src } => Some((Step::Pow3_2, dest, src)),
        Instruction::InvPow3_2 { dest, src } => Some((Step::InvPow3_2, dest, src)),
        Instruction::InvSqrt { dest, src } => Some((Step::InvSqrt, dest, src)),
        Instruction::InvSquare { dest, src } => Some((Step::InvSquare, dest, src)),
        Instruction::InvCube { dest, src } => Some((Step::InvCube, dest, src)),
        Instruction::Recip { dest, src } => Some((Step::Recip, dest, src)),
        Instruction::RecipExpm1 { dest, src } => Some((Step::RecipExpm1, dest, src)),
        Instruction::Exp { dest, arg } => Some((Step::Exp, dest, arg)),
        Instruction::Sqrt { dest, arg } => Some((Step::Sqrt, dest, arg)),
        Instruction::Builtin1 { dest, op, arg } => Some((Step::Call(op), dest, arg)),
        _ => None,
    }
}

/// The instruction performing step `k` from `src` into `dest`.
pub open spec fn step_instr(k: Step, dest: u32, src: u32) -> Instruction {
    match k {
        Step::Copy => Instruction::Copy { dest, src },
        Step::Neg => Instruction::Neg { dest, src },
        Step::Square => Instruction::Square { dest, src },
        Step::Cube => Instruction::Cube { dest, src },
        Step::Pow3_2 => Instruction::Pow3_2 { dest, src },
        Step::InvPow3_2 => Instruction::InvPow3_2 { dest, src },
        Step::InvSqrt => Instruction::InvSqrt { dest, src },
        Step::InvSquare => Instruction::InvSquare { dest, src },
        Step::InvCube => Instruction::InvCube { dest, src },
        Step::Recip => Instruction::Recip { dest, src },
        Step::RecipExpm1 => Instruction::RecipExpm1 { dest, src },
        Step::Exp => Instruction::Exp { dest, arg: src },
        Step::Sqrt => Instruction::Sqrt { dest, arg: src },
        Step::Call(op) => Instruction::Builtin1 { dest, op, arg: src },
    }
}

/// The inverse-power table: a power followed by a reciprocal.
pub open spec fn inverse_table(p: Step, n: Step) -> Option<Step> {
    if n != Step::Recip {
        None
    } else {
        match p {
            Step::Sqrt => Some(Step::InvSqrt),
            Step::Square => Some(Step::InvSquare),
            Step::Cube => Some(Step::InvCube),
            Step::Pow3_2 => Some(Step::InvPow3_2),
            Step::Exp => Some(Step::Call(FnOp::ExpNeg)),
            Step::Call(FnOp::Expm1) => Some(Step::RecipExpm1),
            _ => None,
        }
    }
}

/// `|x|` then `|.|`, and `-x` then `-.`.
pub open spec fn abs_neg_table(p: Step, n: Step) -> Option<Step> {
    if p == Step::Call(FnOp::Abs) && n == Step::Call(FnOp::Abs) {
        Some(Step::Call(FnOp::Abs))
    } else if p == Step::Neg && n == Step::Neg {
        Some(Step::Copy)
    } else {
        None
    }
}

/// `1/(1/x)` is `x`, and `1/(1/sqrt(x))` is `sqrt(x)`.
pub open spec fn recip_table(p: Step, n: Step) -> Option<Step> {
    if p == Step::Recip && n == Step::Recip {
        Some(Step::Copy)
    } else if p == Step::InvSqrt && n == Step::Recip {
        Some(Step::Call(FnOp::Sqrt))
    } else {
        None
    }
}

/// `sqrt(x^2)` is `|x|`, and `|x|^2` is `x^2`.
pub open spec fn power_table(p: Step, n: Step) -> Option<Step> {
    if p == Step::Square && n == Step::Sqrt {
        Some(Step::Call(FnOp::Abs))
    } else if p == Step::Call(FnOp::Abs) && n == Step::Square {
        Some(Step::Square)
    } else {
        None
    }
}

/// `1/exp(-x)` is `exp(x)`.
pub open spec fn transcendental_table(p: Step, n: Step) -> Option<Step> {
    if p == Step::Call(FnOp::ExpNeg) && n == Step::Recip {
        Some(Step::Call(FnOp::Exp))
    } else {
        None
    }
}

/// The chain rule of a table: `prev` writes a single-use temporary that `next`
/// reads, and the table fuses their steps into one step from `prev`'s operand
/// into `next`'s destination.
pub open spec fn chain_rule(table: spec_fn(Step, Step) -> Option<Step>, prev: Instruction, next: Instruction, uc: Seq<usize>) -> Option<FuseResult> {
    match (step_of(prev), step_of(next)) {
        (Some((p, t, s)), Some((n, d, u))) => {
            if table(p, n) is Some && u == t && single(uc, t) {
                Some(FuseResult::One(step_instr(table(p, n)->0, d, s)))
            } else {
                None
            }
        },
        _ => None,
    }
}

/// Whether fusion result `f` passes through the value `prev` writes: `prev`
/// writes one register, which has a single use and which `next` reads, and
/// the last instruction of `f` writes what `next` writes.
pub open spec fn fuses_through(prev: Instruction, next: Instruction, uc: Seq<usize>, f: FuseResult) -> bool {
    &&& writes_of(prev).len() == 1
    &&& single(uc, writes_of(prev)[0])
    &&& reads_of(next).contains(writes_of(prev)[0])
    &&& writes_of(result_instrs(f).last()) == writes_of(next)
}

/// Every fusion rule fires only on a value with a single use that the second
/// instruction reads, and leaves the second instruction's destination written last.
pub proof fn law_fusions_consume_single_use_values(prev: Instruction, next: Instruction, uc: Seq<usize>)
    ensures
        negation_rule(prev, next, uc) matches Some(f) ==> fuses_through(prev, next, uc, f),
        mul_add_rule(prev, next, uc) matches Some(f) ==> fuses_through(prev, next, uc, f),
        chain_rule(|p, n| inverse_table(p, n), prev, next, uc) matches Some(f) ==> fuses_through(prev, next, uc, f),
        idempotent_rule(prev, next, uc) matches Some(f) ==> fuses_through(prev, next, uc, f),
{
    lemma_chain_rule_consumes(|p, n| inverse_table(p, n), prev, next, uc);
    lemma_chain_rule_consumes(|p, n| abs_neg_table(p, n), prev, next, uc);
    lemma_chain_rule_consumes(|p, n| recip_table(p, n), prev, next, uc);
    lemma_chain_rule_consumes(|p, n| power_table(p, n), prev, next, uc);
    lemma_chain_rule_consumes(|p, n| transcendental_table(p, n), prev, next, uc);
    if let Some(f) = negation_rule(prev, next, uc) {
        assert(reads_of(next).contains(writes_of(prev)[0])) by {
            match next {
                Instruction::Mul { dest, a, b } => {
                    if a == writes_of(prev)[0] {
                        assert(reads_of(next)[0] == a);
                    } else {
                        assert(reads_of(next)[1] == b);
                    }
                },
                _ => {
                    assert(reads_of(next)[0] == writes_of(prev)[0]);
                },
            }
        }
    }
}

proof fn lemma_chain_rule_consumes(table: spec_fn(Step, Step) -> Option<Step>, prev: Instruction, next: Instruction, uc: Seq<usize>)
    ensures
        chain_rule(table, prev, next, uc) matches Some(f) ==> fuses_through(prev, next, uc, f),
{
    if let Some(f) = chain_rule(table, prev, next, uc) {
        let (p, t, s) = step_of(prev)->0;
        let (n, d, u) = step_of(next)->0;
        assert(writes_of(prev) == seq![t]);
        assert(reads_of(next) == seq![u]);
        assert(reads_of(next)[0] == t);
        assert(writes_of(next) == seq![d]);
    }
}

/// The first of the idempotent rules that applies.
pub open spec fn idempotent_rule(prev: Instruction, next: Instruction, uc: Seq<usize>) -> Option<FuseResult> {
    if chain_rule(|p, n| abs_neg_table(p, n), prev, next, uc) is Some {
        chain_rule(|p, n| abs_neg_table(p, n), prev, next, uc)
    } else if chain_rule(|p, n| recip_table(p, n), prev, next, uc) is Some {
        chain_rule(|p, n| recip_table(p, n), prev, next, uc)
    } else if chain_rule(|p, n| power_table(p, n), prev, next, uc) is Some {
        chain_rule(|p, n| power_table(p, n), prev, next, uc)
    } else {
        chain_rule(|p, n| transcendental_table(p, n), prev, next, uc)
    }
}

/// `1/sqrt(x)`, `1/x^2`, `1/x^3`, `1/x^(3/2)`, `exp(-x)` and `1/(exp(x)-1)` from a
/// power and a following reciprocal, as `inverse_table` states.
pub fn try_fuse_inverse(prev: &Instruction, next: &Instruction, use_count: &Vec<usize>) -> (r: Option<FuseResult>)
    requires
        counted(*prev, use_count@),
    ensures
        r == chain_rule(|p, n| inverse_table(p, n), *prev, *next, use_count@),
{
    match *prev {
        Instruction::Sqrt { dest, arg } => {
            assert(writes_of(*prev)[0] == dest);
            fuse_sqrt_with_next(next, dest, arg, use_count)
        },
        Instruction::Square { dest, src } => {
            assert(writes_of(*prev)[0] == dest);
            fuse_square_with_next(next, dest, src, use_count)
        },
        Instruction::Cube { dest, src } => {
            assert(writes_of(*prev)[0] == dest);
            fuse_cube_with_next(next, dest, src, use_count)
        },
        Instruction::Pow3_2 { dest, src } => {
            assert(writes_of(*prev)[0] == dest);
            fuse_pow32_with_next(next, dest, src, use_count)
        },
        Instruction::Exp { dest, arg } => {
            assert(writes_of(*prev)[0] == dest);
            fuse_exp_with_next_inverse(next, dest, arg, use_count)
        },
        Instruction::Builtin1 { dest, op: FnOp::Expm1, arg } => {
            assert(writes_of(*prev)[0] == dest);
            fuse_expm1_with_next(next, dest, arg, use_count)
        },
        _ => None,
    }
}

/// Whether `next` is `Recip` of `t` into some register, with `t` used once; that register.
fn recip_of_single(next: &Instruction, t: u32, use_count: &Vec<usize>) -> (r: Option<u32>)
    requires
        t < use_count@.len(),
    ensures
        r == (match *next {
            Instruction::Recip { dest, src } => if src == t && single(use_count@, t) { Some(dest) } else { None },
            _ => None,
        }),
{
    match *next {
        Instruction::Recip { dest, src } => {
            if src == t && use_count[t as usize] == 1 { Some(dest) } else { None }
        },
        _ => None,
    }
}

/// `1/sqrt(s)` from `t = sqrt(s)` and `d = 1/t`.
fn fuse_sqrt_with_next(next: &Instruction, sqrt_dest: u32, sqrt_src: u32, use_count: &Vec<usize>) -> (r: Option<FuseResult>)
    requires
        sqrt_dest < use_count@.len(),
    ensures
        r == chain_rule(|p, n| inverse_table(p, n), Instruction::Sqrt { dest: sqrt_dest, arg: sqrt_src }, *next, use_count@),
{
    match recip_of_single(next, sqrt_dest, use_count) {
        Some(d) => Some(FuseResult::One(Instruction::InvSqrt { dest: d, src: sqrt_src })),
        None => None,
    }
}

/// `1/s^2` from `t = s^2` and `d = 1/t`.
fn fuse_square_with_next(next: &Instruction, sq_dest: u32, sq_src: u32, use_count: &Vec<usize>) -> (r: Option<FuseResult>)
    requires
        sq_dest < use_count@.len(),
    ensures
        r == chain_rule(|p, n| inverse_table(p, n), Instruction::Square { dest: sq_dest, src: sq_src }, *next, use_count@),
{
    match recip_of_single(next, sq_dest, use_count) {
        Some(d) => Some(FuseResult::One(Instruction::InvSquare { dest: d, src: sq_src })),
        None => None,
    }
}

/// `1/s^3` from `t = s^3` and `d = 1/t`.
fn fuse_cube_with_next(next: &Instruction, cube_dest: u32, cube_src: u32, use_count: &Vec<usize>) -> (r: Option<FuseResult>)
    requires
        cube_dest < use_count@.len(),
    ensures
        r == chain_rule(|p, n| inverse_table(p, n), Instruction::Cube { dest: cube_dest, src: cube_src }, *next, use_count@),
{
    match recip_of_single(next, cube_dest, use_count) {
        Some(d) => Some(FuseResult::One(Instruction::InvCube { dest: d, src: cube_src })),
        None => None,
    }
}

/// `1/s^(3/2)` from `t = s^(3/2)` and `d = 1/t`.
fn fuse_pow32_with_next(next: &Instruction, p32_dest: u32, p32_src: u32, use_count: &Vec<usize>) -> (r: Option<FuseResult>)
    requires
        p32_dest < use_count@.len(),
    ensures
        r == chain_rule(|p, n| inverse_table(p, n), Instruction::Pow3_2 { dest: p32_dest, src: p32_src }, *next, use_count@),
{
    match recip_of_single(next, p32_dest, use_count) {
        Some(d) => Some(FuseResult::One(Instruction::InvPow3_2 { dest: d, src: p32_src })),
        None => None,
    }
}

/// `exp(-s)` from `t = exp(s)` and `d = 1/t`.
fn fuse_exp_with_next_inverse(next: &Instruction, exp_dest: u32, exp_arg: u32, use_count: &Vec<usize>) -> (r: Option<FuseResult>)
    requires
        exp_dest < use_count@.len(),
    ensures
        r == chain_rule(|p, n| inverse_table(p, n), Instruction::Exp { dest: exp_dest, arg: exp_arg }, *next, use_count@),
{
    match recip_of_single(next, exp_dest, use_count) {
        Some(d) => Some(FuseResult::One(Instruction::Builtin1 { dest: d, op: FnOp::ExpNeg, arg: exp_arg })),
        None => None,
    }
}

/// `1/(exp(s)-1)` from `t = exp(s)-1` and `d = 1/t`.
fn fuse_expm1_with_next(next: &Instruction, expm1_dest: u32, expm1_arg: u32, use_count: &Vec<usize>) -> (r: Option<FuseResult>)
    requires
        expm1_dest < use_count@.len(),
    ensures
        r == chain_rule(|p, n| inverse_table(p, n), Instruction::Builtin1 { dest: expm1_dest, op: FnOp::Expm1, arg: expm1_arg }, *next, use_count@),
{
    match recip_of_single(next, expm1_dest, use_count) {
        Some(d) => Some(FuseResult::One(Instruction::RecipExpm1 { dest: d, src: expm1_arg })),
        None => None,
    }
}

/// The idempotent rules, tried in order: absolute value and negation,
/// reciprocals, powers, then the exponential.
pub fn try_fuse_idempotent(prev: &Instruction, next: &Instruction, use_count: &Vec<usize>) -> (r: Option<FuseResult>)
    requires
        counted(*prev, use_count@),
    ensures
        r == idempotent_rule(*prev, *next, use_count@),
{
    if let Some(fused) = try_fuse_abs_neg_idempotent(prev, next, use_count) {
        return Some(fused);
    }
    if let Some(fused) = try_fuse_recip_idempotent(prev, next, use_count) {
        return Some(fused);
    }
    if let Some(fused) = try_fuse_power_idempotent(prev, next, use_count) {
        return Some(fused);
    }
    if let Some(fused) = try_fuse_transcendental_idempotent(prev, next, use_count) {
        return Some(fused);
    }
    None
}

/// `||x||` is `|x|`, and `--x` is `x`, as `abs_neg_table` states.
pub fn try_fuse_abs_neg_idempotent(prev: &Instruction, next: &Instruction, use_count: &Vec<usize>) -> (r: Option<FuseResult>)
    requires
        counted(*prev, use_count@),
    ensures
        r == chain_rule(|p, n| abs_neg_table(p, n), *prev, *next, use_count@),
{
    match *prev {
        Instruction::Builtin1 { dest, op: FnOp::Abs, arg } => {
            assert(writes_of(*prev)[0] == dest);
            fuse_abs_with_next(next, dest, arg, use_count)
        },
        Instruction::Neg { dest, src } => {
            assert(writes_of(*prev)[0] == dest);
            fuse_neg_with_next_idempotent(next, dest, src, use_count)
        },
        _ => None,
    }
}

/// `|t|` after `t = |s|` is `|s|`.
fn fuse_abs_with_next(next: &Instruction, tmp_dest: u32, src_reg: u32, use_count: &Vec<usize>) -> (r: Option<FuseResult>)
    requires
        tmp_dest < use_count@.len(),
    ensures
        r == chain_rule(|p, n| abs_neg_table(p, n), Instruction::Builtin1 { dest: tmp_dest, op: FnOp::Abs, arg: src_reg }, *next, use_count@),
{
    match *next {
        Instruction::Builtin1 { dest, op: FnOp::Abs, arg } => {
            if arg == tmp_dest && use_count[tmp_dest as usize] == 1 {
                Some(FuseResult::One(Instruction::Builtin1 { dest, op: FnOp::Abs, arg: src_reg }))
            } else {
                None
            }
        },
        _ => None,
    }
}

/// `-t` after `t = -s` is a copy of `s`.
fn fuse_neg_with_next_idempotent(next: &Instruction, tmp_dest: u32, src_reg: u32, use_count: &Vec<usize>) -> (r: Option<FuseResult>)
    requires
        tmp_dest < use_count@.len(),
    ensures
        r == chain_rule(|p, n| abs_neg_table(p, n), Instruction::Neg { dest: tmp_dest, src: src_reg }, *next, use_count@),
{
    match *next {
        Instruction::Neg { dest, src } => {
            if src == tmp_dest && use_count[tmp_dest as usize] == 1 {
                Some(FuseResult::One(Instruction::Copy { dest, src: src_reg }))
            } else {
                None
            }
        },
        _ => None,
    }
}

/// `1/(1/s)` is a copy of `s`, and `1/(1/sqrt(s))` is `sqrt(s)`, as `recip_table` states.
pub fn try_fuse_recip_idempotent(prev: &Instruction, next: &Instruction, use_count: &Vec<usize>) -> (r: Option<FuseResult>)
    requires
        counted(*prev, use_count@),
    ensures
        r == chain_rule(|p, n| recip_table(p, n), *prev, *next, use_count@),
{
    match *prev {
        Instruction::Recip { dest: tmp_dest, src: src_reg } => {
            assert(writes_of(*prev)[0] == tmp_dest);
            match recip_of_single(next, tmp_dest, use_count) {
                Some(d) => Some(FuseResult::One(Instruction::Copy { dest: d, src: src_reg })),
                None => None,
            }
        },
        Instruction::InvSqrt { dest: tmp_dest, src: src_reg } => {
            assert(writes_of(*prev)[0] == tmp_dest);
            match recip_of_single(next, tmp_dest, use_count) {
                Some(d) => Some(FuseResult::One(Instruction::Builtin1 { dest: d, op: FnOp::Sqrt, arg: src_reg })),
                None => None,
            }
        },
        _ => None,
    }
}

/// `sqrt(s^2)` is `|s|`, and `|s|^2` is `s^2`, as `power_table` states.
pub fn try_fuse_power_idempotent(prev: &Instruction, next: &Instruction, use_count: &Vec<usize>) -> (r: Option<FuseResult>)
    requires
        counted(*prev, use_count@),
    ensures
        r == chain_rule(|p, n| power_table(p, n), *prev, *next, use_count@),
{
    match *prev {
        Instruction::Square { dest: tmp_dest, src: src_reg } => {
            assert(writes_of(*prev)[0] == tmp_dest);
            match *next {
                Instruction::Sqrt { dest, arg } => {
                    if arg == tmp_dest && use_count[tmp_dest as usize] == 1 {
                        Some(FuseResult::One(Instruction::Builtin1 { dest, op: FnOp::Abs, arg: src_reg }))
                    } else {
                        None
                    }
                },
                _ => None,
            }
        },
        Instruction::Builtin1 { dest: tmp_dest, op: FnOp::Abs, arg: src_reg } => {
            assert(writes_of(*prev)[0] == tmp_dest);
            match *next {
                Instruction::Square { dest, src } => {
                    if src == tmp_dest && use_count[tmp_dest as usize] == 1 {
                        Some(FuseResult::One(Instruction::Square { dest, src: src_reg }))
                    } else {
                        None
                    }
                },
                _ => None,
            }
        },
        _ => None,
    }
}

/// `1/exp(-s)` is `exp(s)`, as `transcendental_table` states.
pub fn try_fuse_transcendental_idempotent(prev: &Instruction, next: &Instruction, use_count: &Vec<usize>) -> (r: Option<FuseResult>)
    requires
        counted(*prev, use_count@),
    ensures
        r == chain_rule(|p, n| transcendental_table(p, n), *prev, *next, use_count@),
{
    match *prev {
        Instruction::Builtin1 { dest: tmp_dest, op: FnOp::ExpNeg, arg: src_reg } => {
            assert(writes_of(*prev)[0] == tmp_dest);
            match recip_of_single(next, tmp_dest, use_count) {
                Some(d) => Some(FuseResult::One(Instruction::Builtin1 { dest: d, op: FnOp::Exp, arg: src_reg })),
                None => None,
            }
        },
        _ => None,
    }
}

// ---------------------------------------------------------------------------
// Powers
// ---------------------------------------------------------------------------

/// What the power rules make of a pair: a finished result, or the rewrite of
/// `t = exp(x); d = t^2` into `t = x * 2; d = exp(t)`, whose constant 2 the
/// caller takes from its constant pool.
#[derive(Clone, Copy, Debug, PartialEq, Eq, Structural)]
pub enum PowerFusion {
    Done(FuseResult),
    ExpSquare { exp_dest: u32, exp_arg: u32, sq_dest: u32 },
}

/// The power rules: `(x^2)^2 = x^4`, `x^2 * x = x^3`, `exp(x^2)`,
/// `x^3 * x = x^4`, `exp(x)^2 = exp(2x)`, and `1/x^4 = (x^2)^-2`.
pub open spec fn power_rule(prev: Instruction, next: Instruction, uc: Seq<usize>) -> Option<PowerFusion> {
    match prev {
        Instruction::Square { dest: d1, src: s1 } => match next {
            Instruction::Square { dest: d2, src: s2 } => if s2 == d1 && single(uc, d1) {
                Some(PowerFusion::Done(FuseResult::One(Instruction::Pow4 { dest: d2, src: s1 })))
            } else {
                None
            },
            Instruction::Mul { dest: md, a, b } => if single(uc, d1) && ((a == d1 && b == s1) || (a == s1 && b == d1)) {
                Some(PowerFusion::Done(FuseResult::One(Instruction::Cube { dest: md, src: s1 })))
            } else {
                None
            },
            Instruction::Exp { dest, arg } => if arg == d1 && single(uc, d1) {
                Some(PowerFusion::Done(FuseResult::One(Instruction::ExpSqr { dest, src: s1 })))
            } else {
                None
            },
            _ => None,
        },
        Instruction::Cube { dest: d, src: x } => match next {
            Instruction::Mul { dest: md, a, b } => if single(uc, d) && ((a == d && b == x) || (a == x && b == d)) {
                Some(PowerFusion::Done(FuseResult::One(Instruction::Pow4 { dest: md, src: x })))
            } else {
                None
            },
            _ => None,
        },
        Instruction::Exp { dest: ed, arg: ea } => match next {
            Instruction::Square { dest: sd, src: ss } => if ss == ed && single(uc, ed) {
                Some(PowerFusion::ExpSquare { exp_dest: ed, exp_arg: ea, sq_dest: sd })
            } else {
                None
            },
            _ => None,
        },
        Instruction::Pow4 { dest: d, src: x } => match next {
            Instruction::Recip { dest: rd, src: rs } => if rs == d && single(uc, d) {
                Some(PowerFusion::Done(FuseResult::Two(
                    Instruction::Square { dest: d, src: x },
                    Instruction::InvSquare { dest: rd, src: d },
                )))
            } else {
                None
            },
            _ => None,
        },
        _ => None,
    }
}

/// The fusions of a power with the instruction after it, as `power_rule` states.
pub fn try_fuse_power(prev: &Instruction, next: &Instruction, use_count: &Vec<usize>) -> (r: Option<PowerFusion>)
    requires
        counted(*prev, use_count@),
    ensures
        r == power_rule(*prev, *next, use_count@),
{
    match *prev {
        Instruction::Square { dest: d1, src: s1 } => {
            assert(writes_of(*prev)[0] == d1);
            let one = use_count[d1 as usize] == 1;
            match *next {
                Instruction::Square { dest: d2, src: s2 } => if s2 == d1 && one {
                    Some(PowerFusion::Done(FuseResult::One(Instruction::Pow4 { dest: d2, src: s1 })))
                } else {
                    None
                },
                Instruction::Mul { dest: md, a, b } => if one && ((a == d1 && b == s1) || (a == s1 && b == d1)) {
                    Some(PowerFusion::Done(FuseResult::One(Instruction::Cube { dest: md, src: s1 })))
                } else {
                    None
                },
                Instruction::Exp { dest, arg } => if arg == d1 && one {
                    Some(PowerFusion::Done(FuseResult::One(Instruction::ExpSqr { dest, src: s1 })))
                } else {
                    None
                },
                _ => None,
            }
        },
        Instruction::Cube { dest: d, src: x } => {
            assert(writes_of(*prev)[0] == d);
            match *next {
                Instruction::Mul { dest: md, a, b } => if use_count[d as usize] == 1 && ((a == d && b == x) || (a == x && b == d)) {
                    Some(PowerFusion::Done(FuseResult::One(Instruction::Pow4 { dest: md, src: x })))
                } else {
                    None
                },
                _ => None,
            }
        },
        Instruction::Exp { dest: ed, arg: ea } => {
            assert(writes_of(*prev)[0] == ed);
            match *next {
                Instruction::Square { dest: sd, src: ss } => if ss == ed && use_count[ed as usize] == 1 {
                    Some(PowerFusion::ExpSquare { exp_dest: ed, exp_arg: ea, sq_dest: sd })
                } else {
                    None
                },
                _ => None,
            }
        },
        Instruction::Pow4 { dest: d, src: x } => {
            assert(writes_of(*prev)[0] == d);
            match *next {
                Instruction::Recip { dest: rd, src: rs } => if rs == d && use_count[d as usize] == 1 {
                    Some(PowerFusion::Done(FuseResult::Two(
                        Instruction::Square { dest: d, src: x },
                        Instruction::InvSquare { dest: rd, src: d },
                    )))
                } else {
                    None
                },
                _ => None,
            }
        },
        _ => None,
    }
}

// ---------------------------------------------------------------------------
// Logarithms
// ---------------------------------------------------------------------------

/// What the logarithm rules make of a pair: a finished result; a result that
/// holds only when the constant in register `c_reg` is 1; `ln(x^n) = n ln(x)`
/// with the exponent's register; or `ln(sqrt(x)) = 0.5 ln(x)`. The caller reads
/// and creates the constants in its constant pool.
#[derive(Clone, Copy, Debug, PartialEq, Eq, Structural)]
pub enum LogShape {
    Done(FuseResult),
    IfOne { c_reg: u32, then: FuseResult },
    ScaledLn { dest: u32, arg: u32, exponent: u32 },
    HalfLn { dest: u32, arg: u32 },
}

/// Whether register `r` holds a constant, the constants being the registers
/// from `lo` up to `hi`.
pub open spec fn in_pool(r: u32, lo: u32, hi: u32) -> bool {
    lo <= r && r < hi
}

/// The logarithm rules: `ln(exp(x)) = x`, `exp(x) - 1`, `ln(x^n)`,
/// `ln(sqrt(x))`, `ln(1/x) = -ln(x)`, and `ln(x + 1)`.
pub open spec fn log_rule(prev: Instruction, next: Instruction, uc: Seq<usize>, lo: u32, hi: u32) -> Option<LogShape> {
    match prev {
        Instruction::Exp { dest: ed, arg: ea } => match next {
            Instruction::Ln { dest: fd, arg: ta } => if ta == ed && single(uc, ed) {
                Some(LogShape::Done(FuseResult::One(Instruction::Copy { dest: fd, src: ea })))
            } else {
                None
            },
            Instruction::Sub { dest: fd, a: ta, b: c } => if ta == ed && single(uc, ed) && in_pool(c, lo, hi) {
                Some(LogShape::IfOne { c_reg: c, then: FuseResult::One(Instruction::Builtin1 { dest: fd, op: FnOp::Expm1, arg: ea }) })
            } else {
                None
            },
            _ => None,
        },
        Instruction::Pow { dest: td, base: x, exp: n } => match next {
            Instruction::Ln { dest: fd, arg: ta } => if ta == td && single(uc, td) && in_pool(n, lo, hi) {
                Some(LogShape::ScaledLn { dest: fd, arg: x, exponent: n })
            } else {
                None
            },
            _ => None,
        },
        Instruction::Sqrt { dest: td, arg: x } => match next {
            Instruction::Ln { dest: dd, arg: ta } => if ta == td && single(uc, td) {
                Some(LogShape::HalfLn { dest: dd, arg: x })
            } else {
                None
            },
            _ => None,
        },
        Instruction::Recip { dest: td, src: x } => match next {
            Instruction::Ln { dest: dd, arg: ta } => if ta == td && single(uc, td) {
                Some(LogShape::Done(FuseResult::Two(
                    Instruction::Ln { dest: td, arg: x },
                    Instruction::Neg { dest: dd, src: td },
                )))
            } else {
                None
            },
            _ => None,
        },
        Instruction::Add { dest: td, a: x, b: c } => match next {
            Instruction::Ln { dest: fd, arg: ta } => if ta == td && single(uc, td) && in_pool(c, lo, hi) {
                Some(LogShape::IfOne { c_reg: c, then: FuseResult::One(Instruction::Builtin1 { dest: fd, op: FnOp::Log1p, arg: x }) })
            } else {
                None
            },
            _ => None,
        },
        _ => None,
    }
}

/// The power rules and the finished logarithm rules fire only on a value with
/// a single use that the second instruction reads, and leave the second
/// instruction's destination written last.
pub proof fn law_power_and_log_fusions_consume_single_use_values(prev: Instruction, next: Instruction, uc: Seq<usize>, lo: u32, hi: u32)
    ensures
        power_rule(prev, next, uc) matches Some(PowerFusion::Done(f)) ==> fuses_through(prev, next, uc, f),
        log_rule(prev, next, uc, lo, hi) matches Some(LogShape::Done(f)) ==> fuses_through(prev, next, uc, f),
        log_rule(prev, next, uc, lo, hi) matches Some(LogShape::IfOne { then: f, .. }) ==> fuses_through(prev, next, uc, f),
{
}

/// The register shape of a logarithm fusion, as `log_rule` states; the
/// constants are the registers from `const_lo` up to `const_hi`.
pub fn try_fuse_log_shape(prev: &Instruction, next: &Instruction, use_count: &Vec<usize>, const_lo: u32, const_hi: u32)
    -> (r: Option<LogShape>)
    requires
        counted(*prev, use_count@),
    ensures
        r == log_rule(*prev, *next, use_count@, const_lo, const_hi),
{
    match *prev {
        Instruction::Exp { dest: ed, arg: ea } => {
            assert(writes_of(*prev)[0] == ed);
            match *next {
                Instruction::Ln { dest: fd, arg: ta } => if ta == ed && use_count[ed as usize] == 1 {
                    Some(LogShape::Done(FuseResult::One(Instruction::Copy { dest: fd, src: ea })))
                } else {
                    None
                },
                Instruction::Sub { dest: fd, a: ta, b: c } => if ta == ed && use_count[ed as usize] == 1 && const_lo <= c && c < const_hi {
                    Some(LogShape::IfOne { c_reg: c, then: FuseResult::One(Instruction::Builtin1 { dest: fd, op: FnOp::Expm1, arg: ea }) })
                } else {
                    None
                },
                _ => None,
            }
        },
        Instruction::Pow { dest: td, base: x, exp: n } => {
            assert(writes_of(*prev)[0] == td);
            match *next {
                Instruction::Ln { dest: fd, arg: ta } => if ta == td && use_count[td as usize] == 1 && const_lo <= n && n < const_hi {
                    Some(LogShape::ScaledLn { dest: fd, arg: x, exponent: n })
                } else {
                    None
                },
                _ => None,
            }
        },
        Instruction::Sqrt { dest: td, arg: x } => {
            assert(writes_of(*prev)[0] == td);
            match *next {
                Instruction::Ln { dest: dd, arg: ta } => if ta == td && use_count[td as usize] == 1 {
                    Some(LogShape::HalfLn { dest: dd, arg: x })
                } else {
                    None
                },
                _ => None,
            }
        },
        Instruction::Recip { dest: td, src: x } => {
            assert(writes_of(*prev)[0] == td);
            match *next {
                Instruction::Ln { dest: dd, arg: ta } => if ta == td && use_count[td as usize] == 1 {
                    Some(LogShape::Done(FuseResult::Two(
                        Instruction::Ln { dest: td, arg: x },
                        Instruction::Neg { dest: dd, src: td },
                    )))
                } else {
                    None
                },
                _ => None,
            }
        },
        Instruction::Add { dest: td, a: x, b: c } => {
            assert(writes_of(*prev)[0] == td);
            match *next {
                Instruction::Ln { dest: fd, arg: ta } => if ta == td && use_count[td as usize] == 1 && const_lo <= c && c < const_hi {
                    Some(LogShape::IfOne { c_reg: c, then: FuseResult::One(Instruction::Builtin1 { dest: fd, op: FnOp::Log1p, arg: x }) })
                } else {
                    None
                },
                _ => None,
            }
        },
        _ => None,
    }
}

} // verus!
