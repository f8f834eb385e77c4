use symb_anafis::bytecode::dce::{eliminate_dead_code, DceScratch};
use symb_anafis::bytecode::instruction::Instruction;

#[test]
fn test_dce_basic() {
    let instrs = vec![
        Instruction::Add { dest: 10, a: 1, b: 2 }, // Dead
        Instruction::Mul { dest: 0, a: 1, b: 2 },  // Live (output)
    ];
    let mut arg_pool = vec![];
    let mut use_count = vec![0; 20];

    let out = eliminate_dead_code(
        instrs,
        &mut arg_pool,
        &mut use_count,
        2,  // param_count
        0,  // const_count
        10, // max_reg_idx
        0,  // output_reg
        &mut DceScratch::new(),
    );

    assert_eq!(out.len(), 1);
    assert_eq!(out[0], Instruction::Mul { dest: 0, a: 1, b: 2 });
}

#[test]
fn test_dce_forwards_multi_use_copy_when_source_stays_live() {
    let instrs = vec![
        Instruction::Copy { dest: 5, src: 3 },
        Instruction::Add { dest: 6, a: 5, b: 1 },
        Instruction::Mul { dest: 0, a: 6, b: 5 },
    ];
    let mut arg_pool = vec![];
    let mut use_count = vec![0; 8];

    let out = eliminate_dead_code(
        instrs,
        &mut arg_pool,
        &mut use_count,
        3,
        0,
        6,
        0,
        &mut DceScratch::new(),
    );

    assert_eq!(
        out,
        vec![
            Instruction::Add { dest: 6, a: 3, b: 1 },
            Instruction::Mul { dest: 0, a: 6, b: 3 },
        ]
    );
}

#[test]
fn test_dce_chained_copy_forwarding_to_param() {
    // R0..R3 are parameters; R5 = R2, R6 = R5, R0 = R6 + R3.
    let instrs = vec![
        Instruction::Copy { dest: 5, src: 2 },
        Instruction::Copy { dest: 6, src: 5 },
        Instruction::Add { dest: 0, a: 6, b: 3 },
    ];
    let mut arg_pool = vec![];
    let mut use_count = vec![0; 8];

    let out = eliminate_dead_code(
        instrs,
        &mut arg_pool,
        &mut use_count,
        4, // param_count (R0..R3 are params)
        0, // const_count
        6, // max_reg_idx
        0, // output_reg
        &mut DceScratch::new(),
    );

    // Both copies are dropped and R6 resolves directly to R2.
    assert_eq!(out, vec![Instruction::Add { dest: 0, a: 2, b: 3 }]);
}

#[test]
fn test_dce_chained_copy_temp_to_temp_root_preserved() {
    // R0..R1 = params, R2 = Add(R0, R1), R3 = Copy(R2), R4 = Copy(R3)
    // output = Mul(R4, R0) in R5
    let instrs = vec![
        Instruction::Add { dest: 2, a: 0, b: 1 },
        Instruction::Copy { dest: 3, src: 2 },
        Instruction::Copy { dest: 4, src: 3 },
        Instruction::Mul { dest: 5, a: 4, b: 0 },
    ];
    let mut arg_pool = vec![];
    let mut use_count = vec![0; 8];

    let out = eliminate_dead_code(
        instrs,
        &mut arg_pool,
        &mut use_count,
        2, // param_count (R0, R1)
        0, // const_count
        5, // max_reg_idx
        5, // output_reg
        &mut DceScratch::new(),
    );

    // No instruction may read a register that is neither a parameter nor written.
    for instr in &out {
        let mut dest_set = std::collections::HashSet::new();
        for out_instr in &out {
            for d in out_instr.writes() {
                dest_set.insert(d);
            }
        }
        for r in instr.reads() {
            let is_param = r < 2;
            let is_defined = dest_set.contains(&r);
            assert!(
                is_param || is_defined,
                "Register R{r} is read but never defined (use-before-def bug)"
            );
        }
    }
}
