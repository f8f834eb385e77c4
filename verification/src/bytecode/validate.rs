//! Validation of a register program: every register it reads lies in the
//! workspace and is defined before it is read, every register it writes lies
//! in the workspace, and every pool slice lies in the argument pool.
//!
//! Parameters and constants occupy the first registers and count as defined
//! from the start; an instruction defines the registers it writes.

use vstd::prelude::*;
use super::instruction::{Instruction, reads_of, writes_of, pool_range_of};
use super::uses::{pooled_reads, pooled_reads_of};

verus! {

/// The operand a failed register check concerns.
#[derive(Clone, Copy, Debug, PartialEq, Eq, Structural)]
pub enum Operand {
    Source,
    PooledSource,
    Destination,
}

/// Why a program fails validation.
#[derive(Clone, Copy, Debug, PartialEq, Eq, Structural)]
pub enum ValidationError {
    /// The parameters and constants do not fit in the workspace.
    InvalidLayout,
    /// Instruction `instr` names register `reg`, which lies outside the workspace.
    OutOfBounds { operand: Operand, reg: u32, instr: usize },
    /// Instruction `instr` reads register `reg` before anything defines it.
    ReadBeforeDefinition { operand: Operand, reg: u32, instr: usize },
    /// The pool slice `[start, end)` of instruction `instr` lies outside the argument pool.
    PoolOutOfBounds { start: u32, end: u64, instr: usize },
}

/// The registers that `defined` marks.
pub open spec fn marked(defined: Seq<bool>) -> Set<u32> {
    Set::new(|r: u32| r < defined.len() && defined[r as int])
}

/// What is wrong with instruction `k` reading `reg`, if anything.
pub open spec fn reg_error(operand: Operand, reg: u32, k: int, ws: nat, defined: Set<u32>) -> Option<ValidationError> {
    if reg >= ws {
        Some(ValidationError::OutOfBounds { operand, reg, instr: k as usize })
    } else if !defined.contains(reg) {
        Some(ValidationError::ReadBeforeDefinition { operand, reg, instr: k as usize })
    } else {
        None
    }
}

/// The error of the first of `regs` whose read fails.
pub open spec fn first_read_error(operand: Operand, regs: Seq<u32>, k: int, ws: nat, defined: Set<u32>) -> Option<ValidationError>
    decreases regs.len(),
{
    if regs.len() == 0 {
        None
    } else {
        match first_read_error(operand, regs.drop_last(), k, ws, defined) {
            Some(e) => Some(e),
            None => reg_error(operand, regs.last(), k, ws, defined),
        }
    }
}

/// The error of the last of `writes` outside the workspace.
pub open spec fn write_error(writes: Seq<u32>, k: int, ws: nat) -> Option<ValidationError>
    decreases writes.len(),
{
    if writes.len() == 0 {
        None
    } else if writes.last() >= ws {
        Some(ValidationError::OutOfBounds { operand: Operand::Destination, reg: writes.last(), instr: k as usize })
    } else {
        write_error(writes.drop_last(), k, ws)
    }
}

/// What is wrong with instruction `i`, at index `k`, when the registers of
/// `defined` are defined: its direct reads first, then its pool slice, then
/// its pooled reads, then its writes.
pub open spec fn instr_error(i: Instruction, k: int, ws: nat, pool: Seq<u32>, defined: Set<u32>) -> Option<ValidationError> {
    match first_read_error(Operand::Source, reads_of(i), k, ws, defined) {
        Some(e) => Some(e),
        None => match pool_range_of(i) {
            Some((s, c)) => if s + c > pool.len() {
                Some(ValidationError::PoolOutOfBounds { start: s, end: (s + c) as u64, instr: k as usize })
            } else {
                match first_read_error(Operand::PooledSource, pool.subrange(s as int, s + c), k, ws, defined) {
                    Some(e) => Some(e),
                    None => write_error(writes_of(i), k, ws),
                }
            },
            None => write_error(writes_of(i), k, ws),
        },
    }
}

/// The registers defined before instruction `k`: those below `limit`, and
/// those in the workspace that an earlier instruction writes.
pub open spec fn defined_upto(instrs: Seq<Instruction>, ws: nat, limit: nat, k: int) -> Set<u32>
    decreases k,
{
    if k <= 0 {
        Set::new(|r: u32| r < limit)
    } else {
        defined_upto(instrs, ws, limit, k - 1).union(Set::new(|r: u32| r < ws && writes_of(instrs[k - 1]).contains(r)))
    }
}

/// The error of the first of the first `k` instructions that fails.
pub open spec fn program_error(instrs: Seq<Instruction>, pool: Seq<u32>, ws: nat, limit: nat, k: int) -> Option<ValidationError>
    decreases k,
{
    if k <= 0 {
        None
    } else {
        match program_error(instrs, pool, ws, limit, k - 1) {
            Some(e) => Some(e),
            None => instr_error(instrs[k - 1], k - 1, ws, pool, defined_upto(instrs, ws, limit, k - 1)),
        }
    }
}

/// The verdict on a program whose first `param_count + const_count`
/// registers hold parameters and constants.
pub open spec fn validation(instrs: Seq<Instruction>, pool: Seq<u32>, ws: nat, param_count: nat, const_count: nat) -> Result<(), ValidationError> {
    if param_count + const_count > ws {
        Err(ValidationError::InvalidLayout)
    } else {
        match program_error(instrs, pool, ws, param_count + const_count, instrs.len() as int) {
            Some(e) => Err(e),
            None => Ok(()),
        }
    }
}

/// The check of one register read.
fn check_reg(operand: Operand, reg: u32, instr_idx: usize, workspace_size: usize, defined: &Vec<bool>) -> (r: Option<ValidationError>)
    requires
        defined@.len() == workspace_size,
    ensures
        r == reg_error(operand, reg, instr_idx as int, workspace_size as nat, marked(defined@)),
{
    let idx = reg as usize;
    if idx >= workspace_size {
        Some(ValidationError::OutOfBounds { operand, reg, instr: instr_idx })
    } else if !defined[idx] {
        Some(ValidationError::ReadBeforeDefinition { operand, reg, instr: instr_idx })
    } else {
        None
    }
}

/// The error of the first of `regs` whose read fails.
fn check_reads(operand: Operand, regs: &Vec<u32>, instr_idx: usize, workspace_size: usize, defined: &Vec<bool>) -> (r: Option<ValidationError>)
    requires
        defined@.len() == workspace_size,
    ensures
        r == first_read_error(operand, regs@, instr_idx as int, workspace_size as nat, marked(defined@)),
{
    let mut err: Option<ValidationError> = None;
    let mut j: usize = 0;
    while j < regs.len()
        invariant
            j <= regs@.len(),
            defined@.len() == workspace_size,
            err == first_read_error(operand, regs@.subrange(0, j as int), instr_idx as int, workspace_size as nat, marked(defined@)),
        decreases regs.len() - j,
    {
        proof {
            assert(regs@.subrange(0, j + 1).drop_last() =~= regs@.subrange(0, j as int));
        }
        if err.is_none() {
            err = check_reg(operand, regs[j], instr_idx, workspace_size, defined);
        }
        j = j + 1;
    }
    proof {
        assert(regs@.subrange(0, regs@.len() as int) =~= regs@);
    }
    err
}

/// Checks instruction `instr_idx` against the registers `defined` marks,
/// and marks the registers it writes.
fn validate_instruction(instr_idx: usize, instr: &Instruction, workspace_size: usize, arg_pool: &Vec<u32>, defined: &mut Vec<bool>)
    -> (r: Result<(), ValidationError>)
    requires
        old(defined)@.len() == workspace_size,
    ensures
        final(defined)@.len() == workspace_size,
        r == (match instr_error(*instr, instr_idx as int, workspace_size as nat, arg_pool@, marked(old(defined)@)) {
            Some(e) => Err(e),
            None => Ok(()),
        }),
        r is Ok ==> marked(final(defined)@) == marked(old(defined)@).union(
            Set::new(|q: u32| q < workspace_size && writes_of(*instr).contains(q))),
{
    let ghost d0 = marked(defined@);
    let rs = instr.reads();
    let read_error = check_reads(Operand::Source, &rs, instr_idx, workspace_size, defined);
    if let Some(e) = read_error {
        return Err(e);
    }
    if let Some((start_idx, count)) = instr.arg_pool_range() {
        let pool_end: u64 = start_idx as u64 + count as u64;
        if pool_end > arg_pool.len() as u64 {
            return Err(ValidationError::PoolOutOfBounds { start: start_idx, end: pool_end, instr: instr_idx });
        }
        let pooled = pooled_reads(instr, arg_pool);
        let pooled_error = check_reads(Operand::PooledSource, &pooled, instr_idx, workspace_size, defined);
        if let Some(e) = pooled_error {
            return Err(e);
        }
    }
    let ws = instr.writes();
    let ghost d_start = defined@;
    let mut write_err: Option<ValidationError> = None;
    let mut j: usize = 0;
    while j < ws.len()
        invariant
            j <= ws@.len(),
            ws@ == writes_of(*instr),
            defined@.len() == workspace_size,
            d_start.len() == workspace_size,
            write_err == write_error(ws@.subrange(0, j as int), instr_idx as int, workspace_size as nat),
            forall|q: u32| q < workspace_size ==> #[trigger] defined@[q as int]
                == (d_start[q as int] || ws@.subrange(0, j as int).contains(q)),
        decreases ws.len() - j,
    {
        let ghost pre = ws@.subrange(0, j as int);
        let ghost post = ws@.subrange(0, j + 1);
        proof {
            assert(post.drop_last() =~= pre);
            assert forall|x: u32| #[trigger] post.contains(x) <==> (pre.contains(x) || x == ws@[j as int]) by {
                if post.contains(x) {
                    let w = choose|w: int| 0 <= w < post.len() && post[w] == x;
                    if w < j {
                        assert(pre[w] == x);
                    }
                }
                if pre.contains(x) {
                    let w = choose|w: int| 0 <= w < pre.len() && pre[w] == x;
                    assert(post[w] == x);
                }
                if x == ws@[j as int] {
                    assert(post[j as int] == x);
                }
            }
        }
        let w = ws[j];
        if w as usize >= workspace_size {
            write_err = Some(ValidationError::OutOfBounds { operand: Operand::Destination, reg: w, instr: instr_idx });
        } else {
            defined.set(w as usize, true);
        }
        proof {
            assert forall|q: u32| q < workspace_size implies #[trigger] defined@[q as int]
                == (d_start[q as int] || post.contains(q)) by {
                if q == w {
                    assert(post.contains(w));
                }
            }
        }
        j = j + 1;
    }
    proof {
        assert(ws@.subrange(0, ws@.len() as int) =~= ws@);
    }
    if let Some(e) = write_err {
        return Err(e);
    }
    proof {
        assert(marked(defined@) =~= d0.union(Set::new(|q: u32| q < workspace_size && writes_of(*instr).contains(q)))) by {
            assert forall|q: u32| marked(defined@).contains(q) <==> (d0.contains(q)
                || (q < workspace_size && writes_of(*instr).contains(q))) by {
                if q < workspace_size {
                    assert(defined@[q as int] == (d_start[q as int] || ws@.contains(q)));
                    assert(d0.contains(q) == d_start[q as int]);
                }
            }
        }
    }
    Ok(())
}

proof fn lemma_program_error_stays(instrs: Seq<Instruction>, pool: Seq<u32>, ws: nat, limit: nat, k: int, m: int)
    requires
        0 <= k <= m,
        program_error(instrs, pool, ws, limit, k) is Some,
    ensures
        program_error(instrs, pool, ws, limit, m) == program_error(instrs, pool, ws, limit, k),
    decreases m - k,
{
    if k < m {
        lemma_program_error_stays(instrs, pool, ws, limit, k, m - 1);
    }
}

/// Validates a program whose workspace has `workspace_size` registers, the
/// first `param_count` holding parameters and the next `constants.len()`
/// holding constants: the layout first, then each instruction in order, the
/// first failure reported.
pub fn validate_program<T>(
    instrs: &Vec<Instruction>,
    constants: &Vec<T>,
    arg_pool: &Vec<u32>,
    workspace_size: usize,
    param_count: usize,
) -> (r: Result<(), ValidationError>)
    requires
        param_count + constants@.len() <= usize::MAX,
    ensures
        r == validation(instrs@, arg_pool@, workspace_size as nat, param_count as nat, constants@.len()),
{
    let const_limit = param_count + constants.len();
    if const_limit > workspace_size {
        return Err(ValidationError::InvalidLayout);
    }
    let ghost limit = const_limit as nat;
    let ghost ws = workspace_size as nat;
    let mut defined: Vec<bool> = Vec::new();
    let mut q: usize = 0;
    while q < workspace_size
        invariant
            q <= workspace_size,
            defined@ =~= Seq::new(q as nat, |r: int| r < const_limit),
        decreases workspace_size - q,
    {
        defined.push(q < const_limit);
        q = q + 1;
    }
    proof {
        assert(marked(defined@) =~= defined_upto(instrs@, ws, limit, 0));
    }
    let mut idx: usize = 0;
    while idx < instrs.len()
        invariant
            idx <= instrs@.len(),
            const_limit <= workspace_size,
            const_limit == param_count + constants@.len(),
            limit == const_limit,
            ws == workspace_size,
            defined@.len() == workspace_size,
            marked(defined@) == defined_upto(instrs@, ws, limit, idx as int),
            program_error(instrs@, arg_pool@, ws, limit, idx as int) is None,
        decreases instrs.len() - idx,
    {
        let step = validate_instruction(idx, &instrs[idx], workspace_size, arg_pool, &mut defined);
        if let Err(e) = step {
            proof {
                assert(program_error(instrs@, arg_pool@, ws, limit, idx + 1) == Some(e));
                lemma_program_error_stays(instrs@, arg_pool@, ws, limit, idx + 1, instrs@.len() as int);
                assert(validation(instrs@, arg_pool@, ws, param_count as nat, constants@.len()) == Err::<(), ValidationError>(e));
            }
            return Err(e);
        }
        idx = idx + 1;
    }
    assert(validation(instrs@, arg_pool@, ws, param_count as nat, constants@.len()) == Ok::<(), ValidationError>(()));
    Ok(())
}

} // verus!
