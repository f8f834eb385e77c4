use symb_anafis::bytecode::assemble::assemble_flat_bytecode;
use symb_anafis::bytecode::fusion::{
    try_fuse_idempotent, try_fuse_inverse, try_fuse_log_shape, try_fuse_mul_add, try_fuse_negation,
    try_fuse_power, try_fuse_power_idempotent, try_fuse_recip_idempotent, FuseResult, LogShape, PowerFusion,
};
use symb_anafis::bytecode::instruction::{FnOp, Instruction};
use symb_anafis::bytecode::pairing::{fuse_asin_acos, fuse_sin_cos, has_conflict};
use symb_anafis::bytecode::reg_alloc::RegAllocator;
use symb_anafis::bytecode::vir::{eliminate_vir_dead_code, VInstruction, VReg};
use symb_anafis::bytecode::vir_fusion::{fuse_vir, optimize_div_to_recip};
use symb_anafis::bytecode::power_chain::{optimize_power_chains, power_chains_fit, saturating_mul_i32};
use symb_anafis::bytecode::compact::{compact_constants, compaction_fits};
use symb_anafis::bytecode::schedule::greedy_schedule;
use symb_anafis::bytecode::validate::{validate_program, Operand, ValidationError};

#[test]
fn assemble_writes_opcodes_and_operands_then_end() {
    let instrs = [
        Instruction::Add { dest: 2, a: 0, b: 1 },
        Instruction::Copy { dest: 0, src: 2 },
    ];
    let bc = assemble_flat_bytecode(&instrs);
    let add = Instruction::Add { dest: 2, a: 0, b: 1 }.opcode();
    let copy = Instruction::Copy { dest: 0, src: 2 }.opcode();
    assert_eq!(bc, vec![add, 2, 0, 1, copy, 0, 2, 0]);
    assert_eq!(assemble_flat_bytecode(&[]), vec![0]);
}

#[test]
fn vir_dce_keeps_what_the_result_needs() {
    let t = VReg::Temp;
    let p = VReg::Param;
    let instrs = vec![
        VInstruction::Add2 { dest: t(0), a: p(0), b: p(1) },
        VInstruction::Mul2 { dest: t(1), a: p(0), b: p(0) }, // dead
        VInstruction::Square { dest: t(2), src: t(0) },
    ];
    let (out, bound) = eliminate_vir_dead_code(instrs, Some(t(2)), 3);
    assert_eq!(out.len(), 2);
    assert!(matches!(out[0], VInstruction::Add2 { .. }));
    assert!(matches!(out[1], VInstruction::Square { .. }));
    assert_eq!(bound, 3);

    let (empty, zero) = eliminate_vir_dead_code(Vec::new(), Some(t(5)), 6);
    assert!(empty.is_empty());
    assert_eq!(zero, 0);
}

#[test]
fn vir_dce_bound_counts_the_result_alone() {
    let t = VReg::Temp;
    let instrs = vec![VInstruction::Neg { dest: t(0), src: VReg::Param(0) }];
    let (out, bound) = eliminate_vir_dead_code(instrs, Some(t(4)), 5);
    assert!(out.is_empty());
    assert_eq!(bound, 5);
}

#[test]
fn negation_and_mul_add_fusions() {
    let uc = vec![1usize; 8];
    let neg = Instruction::Neg { dest: 3, src: 1 };
    let mul = Instruction::Mul { dest: 4, a: 2, b: 3 };
    assert_eq!(
        try_fuse_negation(&neg, &mul, &uc),
        Some(FuseResult::One(Instruction::NegMul { dest: 4, a: 1, b: 2 }))
    );
    let m = Instruction::Mul { dest: 5, a: 1, b: 2 };
    let sub = Instruction::Sub { dest: 6, a: 0, b: 5 };
    assert_eq!(
        try_fuse_mul_add(&m, &sub, &uc),
        Some(FuseResult::One(Instruction::NegMulAdd { dest: 6, a: 1, b: 2, c: 0 }))
    );
    let add3 = Instruction::Add3 { dest: 7, a: 0, b: 5, c: 3 };
    assert_eq!(
        try_fuse_mul_add(&m, &add3, &uc),
        Some(FuseResult::Two(
            Instruction::MulAdd { dest: 5, a: 1, b: 2, c: 0 },
            Instruction::Add { dest: 7, a: 5, b: 3 }
        ))
    );
    let mut twice = vec![1usize; 8];
    twice[5] = 2;
    assert_eq!(try_fuse_mul_add(&m, &sub, &twice), None);
}

#[test]
fn chain_fusions() {
    let uc = vec![1usize; 8];
    let r1 = Instruction::Recip { dest: 3, src: 1 };
    let r2 = Instruction::Recip { dest: 4, src: 3 };
    assert_eq!(
        try_fuse_recip_idempotent(&r1, &r2, &uc),
        Some(FuseResult::One(Instruction::Copy { dest: 4, src: 1 }))
    );
    let sq = Instruction::Square { dest: 3, src: 1 };
    let rt = Instruction::Sqrt { dest: 4, arg: 3 };
    assert_eq!(
        try_fuse_power_idempotent(&sq, &rt, &uc),
        Some(FuseResult::One(Instruction::Builtin1 { dest: 4, op: FnOp::Abs, arg: 1 }))
    );
    assert_eq!(
        try_fuse_inverse(&sq, &r2, &uc),
        Some(FuseResult::One(Instruction::InvSquare { dest: 4, src: 1 }))
    );
    let n1 = Instruction::Neg { dest: 3, src: 1 };
    let n2 = Instruction::Neg { dest: 4, src: 3 };
    assert_eq!(
        try_fuse_idempotent(&n1, &n2, &uc),
        Some(FuseResult::One(Instruction::Copy { dest: 4, src: 1 }))
    );
    let unrelated = Instruction::Neg { dest: 4, src: 2 };
    assert_eq!(try_fuse_idempotent(&n1, &unrelated, &uc), None);
}

#[test]
fn sin_cos_pairs_fuse_unless_the_result_is_touched() {
    let mut instrs = vec![
        Instruction::Sin { dest: 2, arg: 0 },
        Instruction::Add { dest: 3, a: 1, b: 1 },
        Instruction::Cos { dest: 4, arg: 0 },
    ];
    assert!(fuse_sin_cos(&mut instrs, &[]));
    assert_eq!(instrs[0], Instruction::Copy { dest: 2, src: 2 });
    assert_eq!(instrs[2], Instruction::SinCos { sin_dest: 2, cos_dest: 4, arg: 0 });

    let mut blocked = vec![
        Instruction::Sin { dest: 2, arg: 0 },
        Instruction::Add { dest: 3, a: 2, b: 1 },
        Instruction::Cos { dest: 4, arg: 0 },
    ];
    assert!(!fuse_sin_cos(&mut blocked, &[]));
    assert_eq!(blocked[0], Instruction::Sin { dest: 2, arg: 0 });

    let mut overwritten = vec![
        Instruction::Builtin1 { dest: 2, op: FnOp::Asin, arg: 0 },
        Instruction::Copy { dest: 0, src: 1 },
        Instruction::Builtin1 { dest: 3, op: FnOp::Acos, arg: 0 },
    ];
    assert!(!fuse_asin_acos(&mut overwritten, &[]));

    let pool = [7u32];
    let window = [Instruction::AddN { dest: 9, start_idx: 0, count: 1 }];
    assert!(has_conflict(&window, 7, &pool));
    assert!(!has_conflict(&window, 8, &pool));
}

#[test]
fn allocator_tables() {
    let t = VReg::Temp;
    let p = VReg::Param;
    let instrs = vec![
        VInstruction::Add2 { dest: t(0), a: p(0), b: p(1) },
        VInstruction::Square { dest: t(1), src: t(0) },
        VInstruction::Mul2 { dest: t(2), a: t(1), b: p(0) },
    ];
    let ra = RegAllocator::new(2, 0, 3, &instrs, Some(t(2)));
    let (out, pool, workspace, result) = ra.allocate(instrs, Some(t(2)));
    // t0 -> r2 (fresh), t1 -> r3 (t0 still live while t1 is written), t0 dies at
    // instruction 1 and frees r2, so t2 reuses r2.
    assert_eq!(
        out,
        vec![
            Instruction::Add { dest: 2, a: 0, b: 1 },
            Instruction::Square { dest: 3, src: 2 },
            Instruction::Mul { dest: 2, a: 3, b: 0 },
        ]
    );
    assert!(pool.is_empty());
    assert_eq!(workspace, 4);
    assert_eq!(result, 2);
}

#[test]
fn allocator_places_constants_after_parameters() {
    let t = VReg::Temp;
    let p = VReg::Param;
    let c = VReg::Const;
    let instrs = vec![
        VInstruction::Add2 { dest: t(0), a: p(0), b: p(1) },
        VInstruction::Mul2 { dest: t(1), a: t(0), b: c(0) },
    ];
    let ra = RegAllocator::new(2, 1, 2, &instrs, Some(t(1)));
    let (out, pool, workspace, result) = ra.allocate(instrs, Some(t(1)));
    assert_eq!(
        out,
        vec![Instruction::Add { dest: 3, a: 0, b: 1 }, Instruction::Mul { dest: 4, a: 3, b: 2 }]
    );
    assert!(pool.is_empty());
    assert_eq!(workspace, 5);
    assert_eq!(result, 4);
}

#[test]
fn allocator_reuses_registers_of_dead_temporaries() {
    let t = VReg::Temp;
    let p = VReg::Param;
    let instrs = vec![
        VInstruction::Neg { dest: t(0), src: p(0) },
        VInstruction::Neg { dest: t(1), src: t(0) },
        VInstruction::Neg { dest: t(2), src: t(1) },
    ];
    let ra = RegAllocator::new(1, 0, 3, &instrs, Some(t(2)));
    let (out, _, workspace, result) = ra.allocate(instrs, Some(t(2)));
    assert_eq!(
        out,
        vec![
            Instruction::Neg { dest: 1, src: 0 },
            Instruction::Neg { dest: 2, src: 1 },
            Instruction::Neg { dest: 1, src: 2 },
        ]
    );
    assert_eq!(workspace, 3);
    assert_eq!(result, 1);
}

#[test]
fn allocator_lowers_wide_sums_and_calls() {
    let t = VReg::Temp;
    let p = VReg::Param;
    let instrs = vec![
        VInstruction::Add { dest: t(0), srcs: vec![p(0), p(1), p(0), p(1), p(0)] },
        VInstruction::Mul { dest: t(1), srcs: vec![t(0), p(1), p(0)] },
        VInstruction::Builtin1 { dest: t(2), op: FnOp::Sin, arg: t(1) },
        VInstruction::BuiltinFun { dest: t(3), op: FnOp::Atan2, args: vec![t(2), p(0)] },
        VInstruction::MulAdd { dest: t(4), a: t(3), b: p(0), c: p(1) },
    ];
    let ra = RegAllocator::new(2, 0, 5, &instrs, Some(t(4)));
    let (out, pool, workspace, result) = ra.allocate(instrs, Some(t(4)));
    assert_eq!(
        out,
        vec![
            Instruction::AddN { dest: 2, start_idx: 0, count: 5 },
            Instruction::Mul3 { dest: 3, a: 2, b: 1, c: 0 },
            Instruction::Sin { dest: 2, arg: 3 },
            Instruction::Builtin2 { dest: 3, op: FnOp::Atan2, arg1: 2, arg2: 0 },
            Instruction::MulAdd { dest: 2, a: 3, b: 0, c: 1 },
        ]
    );
    assert_eq!(pool, vec![0, 1, 0, 1, 0]);
    assert_eq!(workspace, 4);
    assert_eq!(result, 2);
}

#[test]
fn allocator_sends_a_lone_result_to_register_zero() {
    // Neither parameters nor constants: the result goes straight to register 0,
    // and the count of registers stays 0 when it is the only instruction.
    let t = VReg::Temp;
    let instrs = vec![VInstruction::Add { dest: t(0), srcs: vec![] }];
    let ra = RegAllocator::new(0, 0, 1, &instrs, Some(t(0)));
    let (out, pool, workspace, result) = ra.allocate(instrs, Some(t(0)));
    assert_eq!(out, vec![Instruction::AddN { dest: 0, start_idx: 0, count: 0 }]);
    assert!(pool.is_empty());
    assert_eq!(workspace, 0);
    assert_eq!(result, 0);
}

#[test]
fn vir_fusion_turns_product_plus_operand_into_mul_add() {
    let t = VReg::Temp;
    let p = VReg::Param;
    let instrs = vec![
        VInstruction::Mul2 { dest: t(0), a: p(0), b: p(1) },
        VInstruction::Add2 { dest: t(1), a: t(0), b: p(2) },
    ];
    let out = fuse_vir(instrs, t(2));
    assert_eq!(out, vec![VInstruction::MulAdd { dest: t(1), a: p(0), b: p(1), c: p(2) }]);
}

#[test]
fn vir_fusion_turns_operand_minus_product_into_neg_mul_add() {
    let t = VReg::Temp;
    let p = VReg::Param;
    let instrs = vec![
        VInstruction::Mul2 { dest: t(0), a: p(0), b: p(1) },
        VInstruction::Sub { dest: t(1), a: p(2), b: t(0) },
    ];
    let out = fuse_vir(instrs, t(2));
    assert_eq!(out, vec![VInstruction::NegMulAdd { dest: t(1), a: p(0), b: p(1), c: p(2) }]);
}

#[test]
fn vir_fusion_chains_negation_and_addition() {
    let t = VReg::Temp;
    let p = VReg::Param;
    let instrs = vec![
        VInstruction::Mul2 { dest: t(0), a: p(0), b: p(1) },
        VInstruction::Neg { dest: t(1), src: t(0) },
        VInstruction::Add2 { dest: t(2), a: t(1), b: p(2) },
    ];
    let out = fuse_vir(instrs, t(3));
    assert_eq!(out, vec![VInstruction::NegMulAdd { dest: t(2), a: p(0), b: p(1), c: p(2) }]);
}

#[test]
fn vir_fusion_leaves_shared_products_alone() {
    let t = VReg::Temp;
    let p = VReg::Param;
    let instrs = vec![
        VInstruction::Mul2 { dest: t(0), a: p(0), b: p(1) },
        VInstruction::Add2 { dest: t(1), a: t(0), b: p(2) },
        VInstruction::Add2 { dest: t(2), a: t(0), b: t(1) },
    ];
    let out = fuse_vir(instrs.clone(), t(3));
    assert_eq!(out, instrs);
}

#[test]
fn vir_fusion_drops_the_last_instruction_when_the_first_operand_is_read_once() {
    // The sum fuses with the product behind its second operand, but the
    // instruction it drops is the one behind its first operand, which is read
    // only once and was written last.
    let t = VReg::Temp;
    let p = VReg::Param;
    let instrs = vec![
        VInstruction::Mul2 { dest: t(0), a: p(0), b: p(1) },
        VInstruction::Builtin1 { dest: t(1), op: FnOp::Sin, arg: p(0) },
        VInstruction::Add2 { dest: t(2), a: t(1), b: t(0) },
    ];
    let out = fuse_vir(instrs, t(3));
    assert_eq!(
        out,
        vec![
            VInstruction::Mul2 { dest: t(0), a: p(0), b: p(1) },
            VInstruction::MulAdd { dest: t(2), a: p(0), b: p(1), c: t(1) },
        ]
    );
}

#[test]
fn shared_denominators_become_one_reciprocal() {
    let t = VReg::Temp;
    let p = VReg::Param;
    let instrs = vec![
        VInstruction::Div { dest: t(0), num: p(0), den: p(2) },
        VInstruction::Div { dest: t(1), num: p(1), den: p(2) },
        VInstruction::Div { dest: t(2), num: p(0), den: p(1) },
        VInstruction::Add2 { dest: t(3), a: t(0), b: t(1) },
    ];
    let (out, next) = optimize_div_to_recip(instrs, 4);
    assert_eq!(
        out,
        vec![
            VInstruction::Recip { dest: t(4), src: p(2) },
            VInstruction::Mul2 { dest: t(0), a: p(0), b: t(4) },
            VInstruction::Mul2 { dest: t(1), a: p(1), b: t(4) },
            VInstruction::Div { dest: t(2), num: p(0), den: p(1) },
            VInstruction::Add2 { dest: t(3), a: t(0), b: t(1) },
        ]
    );
    assert_eq!(next, 5);
}

#[test]
fn lone_divisions_stay() {
    let t = VReg::Temp;
    let p = VReg::Param;
    let instrs = vec![VInstruction::Div { dest: t(0), num: p(0), den: p(1) }];
    let (out, next) = optimize_div_to_recip(instrs.clone(), 1);
    assert_eq!(out, instrs);
    assert_eq!(next, 1);
}

#[test]
fn test_power_chain_optimization() {
    // x^2, x^3
    let mut instrs = vec![
        Instruction::Square { dest: 10, src: 0 },
        Instruction::Cube { dest: 11, src: 0 },
    ];

    optimize_power_chains(&mut instrs);

    // Cube(x) should become Mul(Square(x), x)
    assert_eq!(instrs.len(), 2);
    assert_eq!(instrs[0], Instruction::Square { dest: 10, src: 0 });
    assert_eq!(instrs[1], Instruction::Mul { dest: 11, a: 10, b: 0 });
}

#[test]
fn test_power_chain_overwritten_base() {
    // R10 = x^2
    // R0 = y (overwrites base)
    // R11 = x^3 (cannot use R10 anymore)
    let mut instrs = vec![
        Instruction::Square { dest: 10, src: 0 },
        Instruction::Copy { dest: 0, src: 1 }, // R0 = R1
        Instruction::Cube { dest: 11, src: 0 },
    ];

    optimize_power_chains(&mut instrs);

    // The Cube should NOT be optimized to use R10 because R0 was overwritten.
    assert_eq!(instrs[2], Instruction::Cube { dest: 11, src: 0 });
}

#[test]
fn test_power_chain_squaring_even_powers() {
    // x^3, x^6
    // x^6 should become Square(x^3)
    let mut instrs = vec![
        Instruction::Cube { dest: 10, src: 0 },
        Instruction::Powi { dest: 11, src: 0, n: 6 },
    ];

    optimize_power_chains(&mut instrs);

    assert_eq!(instrs[1], Instruction::Square { dest: 11, src: 10 });
}

#[test]
fn power_chain_forgets_overwritten_powers() {
    // R10 = x^2, then R10 is overwritten: x^4 must not square R10.
    let mut instrs = vec![
        Instruction::Square { dest: 10, src: 0 },
        Instruction::Copy { dest: 10, src: 1 },
        Instruction::Pow4 { dest: 11, src: 0 },
    ];
    optimize_power_chains(&mut instrs);
    assert_eq!(instrs[2], Instruction::Pow4 { dest: 11, src: 0 });
}

#[test]
fn power_chain_builds_on_powers_of_powers() {
    // R10 = x^2, R11 = R10^2 = x^4, R12 = x^5 = x^4 * x, R13 = x^-2 stays.
    let mut instrs = vec![
        Instruction::Square { dest: 10, src: 0 },
        Instruction::Square { dest: 11, src: 10 },
        Instruction::Powi { dest: 12, src: 0, n: 5 },
        Instruction::InvSquare { dest: 13, src: 0 },
        Instruction::Powi { dest: 14, src: 0, n: -4 },
    ];
    optimize_power_chains(&mut instrs);
    assert_eq!(
        instrs,
        vec![
            Instruction::Square { dest: 10, src: 0 },
            Instruction::Square { dest: 11, src: 10 },
            Instruction::Mul { dest: 12, a: 11, b: 0 },
            Instruction::InvSquare { dest: 13, src: 0 },
            Instruction::Square { dest: 14, src: 13 },
        ]
    );
}

#[test]
fn saturating_multiplication_clamps() {
    assert_eq!(saturating_mul_i32(i32::MAX, 2), i32::MAX);
    assert_eq!(saturating_mul_i32(i32::MIN, 2), i32::MIN);
    assert_eq!(saturating_mul_i32(-3, 4), -12);
}

#[test]
fn test_compact_constants_preserves_output_register_reads() {
    let mut instructions = vec![
        Instruction::Copy {
            dest: 2,
            src: 1, // Constant 20.0
        },
        Instruction::Add {
            dest: 3,
            a: 2,
            b: 1, // Constant 20.0
        },
    ];
    let mut constants = vec![10.0, 20.0];

    let mut arg_pool = vec![];

    let (out, rc, result_reg) = compact_constants(
        std::mem::take(&mut instructions),
        &mut constants,
        &mut arg_pool,
        0, // param_count
        2, // old_const_count
        3, // output_reg (Temp 3)
    );

    // 10.0 (reg 0) is unused and should be removed.
    // 20.0 (reg 1) becomes reg 0.
    // Temp 2 becomes reg 1.
    // Temp 3 becomes reg 2.
    assert_eq!(
        out,
        vec![
            Instruction::Copy { dest: 1, src: 0 },
            Instruction::Add { dest: 2, a: 1, b: 0 },
        ]
    );
    assert_eq!(constants, vec![20.0]);
    assert_eq!(rc, 3);
    assert_eq!(result_reg, 2);
}

#[test]
fn compaction_keeps_everything_when_all_constants_are_used() {
    let instrs = vec![Instruction::Add { dest: 5, a: 0, b: 1 }];
    let mut constants = vec![1.5_f64];
    let mut pool: Vec<u32> = vec![];
    let (out, rc, result) = compact_constants(instrs.clone(), &mut constants, &mut pool, 1, 1, 5);
    assert_eq!(out, instrs);
    assert_eq!(constants, vec![1.5]);
    assert_eq!(rc, 6);
    assert_eq!(result, 5);
}

#[test]
fn compaction_renumbers_pooled_operands_in_first_use_order() {
    // One parameter (r0), two constants (r1 unused, r2 used), temporaries 9 and 7.
    let instrs = vec![
        Instruction::Mul { dest: 9, a: 0, b: 2 },
        Instruction::AddN { dest: 7, start_idx: 0, count: 3 },
    ];
    let mut constants = vec![3u8, 4u8];
    let mut pool = vec![9, 0, 2];
    let (out, rc, result) = compact_constants(instrs, &mut constants, &mut pool, 1, 2, 7);
    assert_eq!(
        out,
        vec![
            Instruction::Mul { dest: 2, a: 0, b: 1 },
            Instruction::AddN { dest: 3, start_idx: 0, count: 3 },
        ]
    );
    assert_eq!(pool, vec![2, 0, 1]);
    assert_eq!(constants, vec![4]);
    assert_eq!(rc, 4);
    assert_eq!(result, 3);
}

#[test]
fn compaction_fits_reports_when_renumbering_goes_through() {
    let instrs = vec![
        Instruction::Mul { dest: 9, a: 0, b: 2 },
        Instruction::AddN { dest: 7, start_idx: 0, count: 3 },
    ];
    assert!(compaction_fits(&instrs, &vec![9, 0, 2], 1, 2, 7));
    assert!(compaction_fits(&vec![Instruction::Add { dest: 5, a: 0, b: 1 }], &vec![], 1, 1, 5));
}

#[test]
fn compaction_fits_refuses_a_slice_renumbered_twice() {
    // Both sums read the same pool slice: the first renumbers temporary 9 to
    // register 1 in place, and the second then reads register 1 as the
    // unused constant.
    let instrs = vec![
        Instruction::Mul { dest: 9, a: 0, b: 0 },
        Instruction::AddN { dest: 7, start_idx: 0, count: 1 },
        Instruction::AddN { dest: 8, start_idx: 0, count: 1 },
    ];
    assert!(!compaction_fits(&instrs, &vec![9], 0, 2, 8));
}

#[test]
fn scheduler_prefers_instructions_that_free_values() {
    let t = VReg::Temp;
    let p = VReg::Param;
    let instrs = vec![
        VInstruction::Neg { dest: t(0), src: p(0) },
        VInstruction::Neg { dest: t(1), src: p(1) },
        VInstruction::Neg { dest: t(2), src: t(1) },
        VInstruction::Neg { dest: t(3), src: t(0) },
        VInstruction::Add2 { dest: t(4), a: t(2), b: t(3) },
    ];
    let out = greedy_schedule(instrs.clone(), 5);
    assert_eq!(
        out,
        vec![
            instrs[0].clone(),
            instrs[3].clone(),
            instrs[1].clone(),
            instrs[2].clone(),
            instrs[4].clone(),
        ]
    );
}

#[test]
fn scheduler_keeps_program_order_on_ties() {
    let t = VReg::Temp;
    let p = VReg::Param;
    let instrs = vec![
        VInstruction::Mul2 { dest: t(0), a: p(0), b: p(1) },
        VInstruction::Mul2 { dest: t(1), a: p(0), b: p(2) },
        VInstruction::Add2 { dest: t(2), a: t(0), b: t(1) },
    ];
    assert_eq!(greedy_schedule(instrs.clone(), 3), instrs);
}

#[test]
fn scheduler_leaves_out_instructions_that_wait_on_themselves() {
    let t = VReg::Temp;
    let p = VReg::Param;
    let instrs = vec![
        VInstruction::Neg { dest: t(0), src: t(0) },
        VInstruction::Neg { dest: t(1), src: p(0) },
    ];
    assert_eq!(greedy_schedule(instrs.clone(), 2), vec![instrs[1].clone()]);
    assert_eq!(greedy_schedule(vec![], 0), vec![]);
}

#[test]
fn validation_accepts_a_program_that_defines_before_reading() {
    let instrs = vec![
        Instruction::Add { dest: 3, a: 0, b: 2 },
        Instruction::AddN { dest: 4, start_idx: 0, count: 3 },
        Instruction::SinCos { sin_dest: 5, cos_dest: 6, arg: 4 },
        Instruction::Mul { dest: 3, a: 5, b: 6 },
    ];
    let pool = vec![0, 1, 3];
    assert_eq!(validate_program(&instrs, &vec![2.5_f64], &pool, 7, 2), Ok(()));
}

#[test]
fn validation_rejects_a_layout_larger_than_the_workspace() {
    let instrs: Vec<Instruction> = vec![];
    assert_eq!(
        validate_program(&instrs, &vec![1.0_f64], &vec![], 2, 2),
        Err(ValidationError::InvalidLayout)
    );
}

#[test]
fn validation_reports_the_first_bad_source() {
    let instrs = vec![Instruction::Add { dest: 2, a: 5, b: 2 }];
    assert_eq!(
        validate_program(&instrs, &Vec::<f64>::new(), &vec![], 3, 2),
        Err(ValidationError::OutOfBounds { operand: Operand::Source, reg: 5, instr: 0 })
    );
    let instrs = vec![
        Instruction::Copy { dest: 2, src: 0 },
        Instruction::Add { dest: 3, a: 2, b: 3 },
    ];
    assert_eq!(
        validate_program(&instrs, &Vec::<f64>::new(), &vec![], 4, 2),
        Err(ValidationError::ReadBeforeDefinition { operand: Operand::Source, reg: 3, instr: 1 })
    );
}

#[test]
fn validation_checks_pool_slices_and_pooled_sources() {
    let instrs = vec![Instruction::AddN { dest: 2, start_idx: 1, count: 3 }];
    assert_eq!(
        validate_program(&instrs, &Vec::<f64>::new(), &vec![0, 1], 3, 2),
        Err(ValidationError::PoolOutOfBounds { start: 1, end: 4, instr: 0 })
    );
    let instrs = vec![Instruction::MulN { dest: 3, start_idx: 0, count: 2 }];
    assert_eq!(
        validate_program(&instrs, &Vec::<f64>::new(), &vec![0, 2], 4, 2),
        Err(ValidationError::ReadBeforeDefinition { operand: Operand::PooledSource, reg: 2, instr: 0 })
    );
}

#[test]
fn validation_reports_the_last_destination_out_of_bounds() {
    let instrs = vec![Instruction::SinCos { sin_dest: 5, cos_dest: 6, arg: 0 }];
    assert_eq!(
        validate_program(&instrs, &Vec::<f64>::new(), &vec![], 3, 1),
        Err(ValidationError::OutOfBounds { operand: Operand::Destination, reg: 6, instr: 0 })
    );
}

#[test]
fn test_fusion_fma() {
    let prev = Instruction::Mul { dest: 10, a: 1, b: 2 };
    let next = Instruction::Add { dest: 0, a: 10, b: 11 };
    let use_count = vec![0, 2, 2, 0, 0, 0, 0, 0, 0, 0, 1, 1]; // R10 used once
    let fused = try_fuse_mul_add(&prev, &next, &use_count);
    match fused {
        Some(FuseResult::One(Instruction::MulAdd { dest, a, b, c })) => {
            assert_eq!(dest, 0);
            assert_eq!(a, 1);
            assert_eq!(b, 2);
            assert_eq!(c, 11);
        }
        other => panic!("Expected MulAdd fusion, got {:?}", other),
    }
}

#[test]
fn power_fusions_cover_squares_cubes_and_exponentials() {
    let uc = vec![0, 0, 1, 0, 0];
    let sq = Instruction::Square { dest: 2, src: 0 };
    assert_eq!(
        try_fuse_power(&sq, &Instruction::Square { dest: 3, src: 2 }, &uc),
        Some(PowerFusion::Done(FuseResult::One(Instruction::Pow4 { dest: 3, src: 0 })))
    );
    assert_eq!(
        try_fuse_power(&sq, &Instruction::Mul { dest: 3, a: 0, b: 2 }, &uc),
        Some(PowerFusion::Done(FuseResult::One(Instruction::Cube { dest: 3, src: 0 })))
    );
    assert_eq!(
        try_fuse_power(&sq, &Instruction::Exp { dest: 4, arg: 2 }, &uc),
        Some(PowerFusion::Done(FuseResult::One(Instruction::ExpSqr { dest: 4, src: 0 })))
    );
    assert_eq!(
        try_fuse_power(&Instruction::Exp { dest: 2, arg: 1 }, &Instruction::Square { dest: 3, src: 2 }, &uc),
        Some(PowerFusion::ExpSquare { exp_dest: 2, exp_arg: 1, sq_dest: 3 })
    );
    assert_eq!(
        try_fuse_power(&Instruction::Pow4 { dest: 2, src: 0 }, &Instruction::Recip { dest: 3, src: 2 }, &uc),
        Some(PowerFusion::Done(FuseResult::Two(
            Instruction::Square { dest: 2, src: 0 },
            Instruction::InvSquare { dest: 3, src: 2 },
        )))
    );
    let shared = vec![0, 0, 2, 0, 0];
    assert_eq!(try_fuse_power(&sq, &Instruction::Square { dest: 3, src: 2 }, &shared), None);
}

#[test]
fn logarithm_shapes_name_the_constants_to_check() {
    let uc = vec![0, 0, 0, 0, 0, 1, 0];
    let exp = Instruction::Exp { dest: 5, arg: 0 };
    assert_eq!(
        try_fuse_log_shape(&exp, &Instruction::Ln { dest: 6, arg: 5 }, &uc, 2, 4),
        Some(LogShape::Done(FuseResult::One(Instruction::Copy { dest: 6, src: 0 })))
    );
    assert_eq!(
        try_fuse_log_shape(&exp, &Instruction::Sub { dest: 6, a: 5, b: 3 }, &uc, 2, 4),
        Some(LogShape::IfOne {
            c_reg: 3,
            then: FuseResult::One(Instruction::Builtin1 { dest: 6, op: FnOp::Expm1, arg: 0 }),
        })
    );
    assert_eq!(try_fuse_log_shape(&exp, &Instruction::Sub { dest: 6, a: 5, b: 1 }, &uc, 2, 4), None);
    assert_eq!(
        try_fuse_log_shape(&Instruction::Pow { dest: 5, base: 0, exp: 2 }, &Instruction::Ln { dest: 6, arg: 5 }, &uc, 2, 4),
        Some(LogShape::ScaledLn { dest: 6, arg: 0, exponent: 2 })
    );
    assert_eq!(
        try_fuse_log_shape(&Instruction::Sqrt { dest: 5, arg: 0 }, &Instruction::Ln { dest: 6, arg: 5 }, &uc, 2, 4),
        Some(LogShape::HalfLn { dest: 6, arg: 0 })
    );
    assert_eq!(
        try_fuse_log_shape(&Instruction::Recip { dest: 5, src: 0 }, &Instruction::Ln { dest: 6, arg: 5 }, &uc, 2, 4),
        Some(LogShape::Done(FuseResult::Two(
            Instruction::Ln { dest: 5, arg: 0 },
            Instruction::Neg { dest: 6, src: 5 },
        )))
    );
    assert_eq!(
        try_fuse_log_shape(&Instruction::Add { dest: 5, a: 0, b: 2 }, &Instruction::Ln { dest: 6, arg: 5 }, &uc, 2, 4),
        Some(LogShape::IfOne {
            c_reg: 2,
            then: FuseResult::One(Instruction::Builtin1 { dest: 6, op: FnOp::Log1p, arg: 0 }),
        })
    );
}

#[test]
fn power_chain_arithmetic_fit_is_checked() {
    let fits = vec![
        Instruction::Square { dest: 1, src: 0 },
        Instruction::Mul { dest: 2, a: 1, b: 1 },
    ];
    assert!(power_chains_fit(&fits));
    let overflows = vec![
        Instruction::Powi { dest: 1, src: 0, n: i32::MAX },
        Instruction::Mul { dest: 2, a: 1, b: 1 },
    ];
    assert!(!power_chains_fit(&overflows));
}
