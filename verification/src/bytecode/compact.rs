//! Constant compaction: unused constants leave the pool, and every register
//! is renumbered to a dense layout.
//!
//! Registers are parameters, then constants, then temporaries. Parameters
//! keep their numbers; the constants still used move down, in order, to
//! follow the parameters; temporaries are numbered after them in the order
//! in which the instructions first name them.

use vstd::prelude::*;
use rustc_hash::FxHashMap;
use super::instruction::{Instruction, pool_range_of};
use super::uses::{pool_ok, pools_ok, all_uses, uses};
use super::fields::{fields, fields_of, replace_fields, with_fields};
use super::tables::{table_get, table_insert, table_new, u32_table};

verus! {

// ---------------------------------------------------------------------------
// Which constants are used
// ---------------------------------------------------------------------------

/// Whether constant `c` is used: some instruction reads its register,
/// directly or through the pool, or it is the output.
pub open spec fn const_used(instrs: Seq<Instruction>, pool: Seq<u32>, pc: u32, output_reg: u32, c: int) -> bool {
    all_uses(instrs, pool, instrs.len() as int).contains((pc + c) as u32) || output_reg == pc + c
}

/// For each of `cc` constants, whether it is used.
pub open spec fn used_constants(instrs: Seq<Instruction>, pool: Seq<u32>, pc: u32, cc: nat, output_reg: u32) -> Seq<bool> {
    Seq::new(cc, |c: int| const_used(instrs, pool, pc, output_reg, c))
}

/// Marks the constants that the instructions use.
fn collect_used_constant_indices(
    instructions: &Vec<Instruction>,
    arg_pool: &Vec<u32>,
    param_count_u32: u32,
    const_limit_u32: u32,
    constant_count: usize,
    output_reg: u32,
) -> (used: Vec<bool>)
    requires
        pools_ok(instructions@, arg_pool@),
        param_count_u32 + constant_count == const_limit_u32,
    ensures
        used@ == used_constants(instructions@, arg_pool@, param_count_u32, constant_count as nat, output_reg),
{
    let ghost s = instructions@;
    let ghost pool = arg_pool@;
    let mut used_pool_indices: Vec<bool> = Vec::new();
    let mut c: usize = 0;
    while c < constant_count
        invariant
            c <= constant_count,
            used_pool_indices@ =~= Seq::new(c as nat, |q: int| false),
        decreases constant_count - c,
    {
        used_pool_indices.push(false);
        c = c + 1;
    }
    let mut k: usize = 0;
    while k < instructions.len()
        invariant
            k <= s.len(),
            s == instructions@,
            pool == arg_pool@,
            pools_ok(s, pool),
            param_count_u32 + constant_count == const_limit_u32,
            used_pool_indices@.len() == constant_count,
            forall|q: int| 0 <= q < constant_count ==>
                #[trigger] used_pool_indices@[q] == all_uses(s, pool, k as int).contains((param_count_u32 + q) as u32),
        decreases s.len() - k,
    {
        assert(pool_ok(s[k as int], pool));
        let us = uses(&instructions[k], arg_pool);
        let ghost before = used_pool_indices@;
        let mut j: usize = 0;
        while j < us.len()
            invariant
                j <= us@.len(),
                k < s.len(),
                us@ == super::uses::uses_of(s[k as int], pool),
                param_count_u32 + constant_count == const_limit_u32,
                used_pool_indices@.len() == constant_count,
                forall|q: int| 0 <= q < constant_count ==>
                    #[trigger] used_pool_indices@[q] == (before[q] || us@.subrange(0, j as int).contains((param_count_u32 + q) as u32)),
            decreases us.len() - j,
        {
            let reg_idx = us[j];
            proof {
                let a = us@.subrange(0, j as int);
                let b = us@.subrange(0, j + 1);
                assert(b =~= a.push(reg_idx));
                assert forall|x: u32| #[trigger] b.contains(x) <==> (a.contains(x) || x == reg_idx) by {
                    if b.contains(x) {
                        let w = choose|w: int| 0 <= w < b.len() && b[w] == x;
                        if w < j {
                            assert(a[w] == x);
                        }
                    }
                    if a.contains(x) {
                        let w = choose|w: int| 0 <= w < a.len() && a[w] == x;
                        assert(b[w] == x);
                    }
                    if x == reg_idx {
                        assert(b[j as int] == x);
                    }
                }
            }
            if reg_idx >= param_count_u32 && reg_idx < const_limit_u32 {
                used_pool_indices.set((reg_idx - param_count_u32) as usize, true);
            }
            j = j + 1;
        }
        proof {
            assert(us@.subrange(0, us@.len() as int) =~= us@);
            assert forall|q: int| 0 <= q < constant_count implies
                #[trigger] used_pool_indices@[q] == all_uses(s, pool, k + 1).contains((param_count_u32 + q) as u32) by {
                let x = (param_count_u32 + q) as u32;
                let a = all_uses(s, pool, k as int);
                assert(all_uses(s, pool, k + 1) == a + us@);
                if (a + us@).contains(x) {
                    let w = choose|w: int| 0 <= w < (a + us@).len() && (a + us@)[w] == x;
                    if w < a.len() {
                        assert(a[w] == x);
                    } else {
                        assert(us@[w - a.len()] == x);
                    }
                }
                if a.contains(x) {
                    let w = choose|w: int| 0 <= w < a.len() && a[w] == x;
                    assert((a + us@)[w] == x);
                }
                if us@.contains(x) {
                    let w = choose|w: int| 0 <= w < us@.len() && us@[w] == x;
                    assert((a + us@)[a.len() + w] == x);
                }
            }
        }
        k = k + 1;
    }
    if output_reg >= param_count_u32 && output_reg < const_limit_u32 {
        used_pool_indices.set((output_reg - param_count_u32) as usize, true);
    }
    proof {
        assert(used_pool_indices@ =~= used_constants(s, pool, param_count_u32, constant_count as nat, output_reg));
    }
    used_pool_indices
}

// ---------------------------------------------------------------------------
// Compacting the pool
// ---------------------------------------------------------------------------

/// How many of the first `c` flags are set.
pub open spec fn rank(used: Seq<bool>, c: int) -> nat
    decreases c,
{
    if c <= 0 {
        0
    } else {
        rank(used, c - 1) + (if used[c - 1] { 1nat } else { 0nat })
    }
}

/// The first `c` constants whose flag is set, in order.
pub open spec fn kept<T>(constants: Seq<T>, used: Seq<bool>, c: int) -> Seq<T>
    decreases c,
{
    if c <= 0 {
        Seq::empty()
    } else if used[c - 1] {
        kept(constants, used, c - 1).push(constants[c - 1])
    } else {
        kept(constants, used, c - 1)
    }
}

/// Where each constant goes: the register after the parameters and the used
/// constants before it; `None` for an unused constant.
pub open spec fn new_const_regs(used: Seq<bool>, pc: u32) -> Seq<Option<u32>> {
    Seq::new(used.len(), |c: int| if used[c] { Some((pc + rank(used, c)) as u32) } else { None })
}

proof fn lemma_rank_le(used: Seq<bool>, c: int)
    ensures
        rank(used, c) <= if c < 0 { 0 } else { c },
    decreases c,
{
    if c > 0 {
        lemma_rank_le(used, c - 1);
    }
}

proof fn lemma_kept_len<T>(constants: Seq<T>, used: Seq<bool>, c: int)
    ensures
        kept(constants, used, c).len() == rank(used, c),
    decreases c,
{
    if c > 0 {
        lemma_kept_len(constants, used, c - 1);
    }
}

/// Keeps only the used constants, in order.
fn compact_constant_pool<T: Copy>(constants: &mut Vec<T>, used_indices: &Vec<bool>)
    requires
        old(constants)@.len() >= used_indices@.len(),
    ensures
        final(constants)@ == kept(old(constants)@, used_indices@, used_indices@.len() as int),
{
    let ghost old_c = constants@;
    let ghost used = used_indices@;
    let mut new_constants: Vec<T> = Vec::new();
    let mut c: usize = 0;
    while c < used_indices.len()
        invariant
            c <= used.len(),
            used == used_indices@,
            old_c == constants@,
            old_c.len() >= used.len(),
            new_constants@ == kept(old_c, used, c as int),
        decreases used.len() - c,
    {
        if used_indices[c] {
            new_constants.push(constants[c]);
        }
        c = c + 1;
    }
    *constants = new_constants;
}

/// Where each constant goes once the unused ones are dropped.
fn constant_slots(used_indices: &Vec<bool>, param_count_u32: u32) -> (r: (Vec<Option<u32>>, u32))
    requires
        param_count_u32 + used_indices@.len() <= u32::MAX,
    ensures
        r.0@ == new_const_regs(used_indices@, param_count_u32),
        r.1 == rank(used_indices@, used_indices@.len() as int),
{
    let ghost used = used_indices@;
    let mut index_map: Vec<Option<u32>> = Vec::new();
    let mut kept_so_far: u32 = 0;
    let mut c: usize = 0;
    while c < used_indices.len()
        invariant
            c <= used.len(),
            used == used_indices@,
            param_count_u32 + used.len() <= u32::MAX,
            kept_so_far == rank(used, c as int),
            index_map@ =~= new_const_regs(used, param_count_u32).subrange(0, c as int),
        decreases used.len() - c,
    {
        proof {
            lemma_rank_le(used, c as int);
        }
        if used_indices[c] {
            index_map.push(Some(param_count_u32 + kept_so_far));
            kept_so_far = kept_so_far + 1;
        } else {
            index_map.push(None);
        }
        c = c + 1;
    }
    (index_map, kept_so_far)
}

// ---------------------------------------------------------------------------
// Renumbering registers
// ---------------------------------------------------------------------------

/// The renumbering state: temporaries met so far, and the next free number.
pub struct Renumbering {
    pub tmap: Map<u32, u32>,
    pub next: int,
}

/// The new number of register `r`, the state after it, and whether it could
/// be renumbered: a constant must be used, and a new temporary's number must
/// fit in `u32`.
pub open spec fn renumber(st: Renumbering, r: u32, pc: u32, limit: u32, imap: Seq<Option<u32>>) -> (u32, Renumbering, bool) {
    if r < pc {
        (r, st, true)
    } else if r < limit {
        match imap[r - pc] {
            Some(n) => (n, st, true),
            None => (0, st, false),
        }
    } else if st.tmap.contains_key(r) {
        (st.tmap[r], st, true)
    } else {
        (st.next as u32, Renumbering { tmap: st.tmap.insert(r, st.next as u32), next: st.next + 1 }, st.next < u32::MAX)
    }
}

/// Renumbers `regs` from the `j`-th on, in order.
pub open spec fn renumber_all(st: Renumbering, regs: Seq<u32>, j: int, pc: u32, limit: u32, imap: Seq<Option<u32>>)
    -> (Seq<u32>, Renumbering, bool)
    decreases regs.len() - j,
{
    if j < 0 || j >= regs.len() {
        (Seq::empty(), st, true)
    } else {
        let (n, st1, ok1) = renumber(st, regs[j], pc, limit, imap);
        let (rest, st2, ok2) = renumber_all(st1, regs, j + 1, pc, limit, imap);
        (seq![n] + rest, st2, ok1 && ok2)
    }
}

/// The pool with the slice of `i` renumbered in place, when it has one.
pub open spec fn renumber_pool(st: Renumbering, i: Instruction, pool: Seq<u32>, pc: u32, limit: u32, imap: Seq<Option<u32>>)
    -> (Seq<u32>, Renumbering, bool)
{
    match pool_range_of(i) {
        Some((s, c)) => {
            let (mapped, st1, ok) = renumber_all(st, pool.subrange(s as int, s + c), 0, pc, limit, imap);
            (pool.subrange(0, s as int) + mapped + pool.subrange(s + c, pool.len() as int), st1, ok)
        },
        None => (pool, st, true),
    }
}

/// The renumbering of the instructions, the pool, the state, and whether it
/// went through, after the first `k` instructions.
pub struct RenumberedPrefix {
    pub out: Seq<Instruction>,
    pub pool: Seq<u32>,
    pub st: Renumbering,
    pub ok: bool,
}

/// Instruction by instruction: its registers, then its pooled operands.
pub open spec fn renumber_upto(instrs: Seq<Instruction>, pool: Seq<u32>, k: int, pc: u32, limit: u32, imap: Seq<Option<u32>>, start: u32)
    -> RenumberedPrefix
    decreases k,
{
    if k <= 0 {
        RenumberedPrefix { out: Seq::empty(), pool, st: Renumbering { tmap: Map::empty(), next: start as int }, ok: true }
    } else {
        let prev = renumber_upto(instrs, pool, k - 1, pc, limit, imap, start);
        let i = instrs[k - 1];
        let (vals, st1, ok1) = renumber_all(prev.st, fields_of(i), 0, pc, limit, imap);
        let (pool2, st2, ok2) = renumber_pool(st1, i, prev.pool, pc, limit, imap);
        RenumberedPrefix { out: prev.out.push(with_fields(i, vals)), pool: pool2, st: st2, ok: prev.ok && ok1 && ok2 }
    }
}

/// The renumbering state that a table and a counter stand for.
pub open spec fn renumbering_of(m: std::collections::HashMap<u32, u32, rustc_hash::FxBuildHasher>, next: u32) -> Renumbering {
    Renumbering { tmap: u32_table(m), next: next as int }
}

/// Renumbers one register, as `renumber` says; `None` where it cannot.
fn try_remap_register(
    reg_idx: u32,
    param_count_u32: u32,
    const_limit_u32: u32,
    index_map: &Vec<Option<u32>>,
    temp_map: &mut FxHashMap<u32, u32>,
    next_temp: &mut u32,
) -> (r: Option<u32>)
    requires
        param_count_u32 <= const_limit_u32,
        index_map@.len() == const_limit_u32 - param_count_u32,
    ensures
        r is Some == renumber(renumbering_of(*old(temp_map), *old(next_temp)), reg_idx, param_count_u32, const_limit_u32, index_map@).2,
        r is Some ==> r->0 == renumber(renumbering_of(*old(temp_map), *old(next_temp)), reg_idx, param_count_u32, const_limit_u32, index_map@).0,
        r is Some ==> renumbering_of(*final(temp_map), *final(next_temp))
            == renumber(renumbering_of(*old(temp_map), *old(next_temp)), reg_idx, param_count_u32, const_limit_u32, index_map@).1,
{
    if reg_idx < param_count_u32 {
        Some(reg_idx)
    } else if reg_idx < const_limit_u32 {
        let old_rel_idx = reg_idx - param_count_u32;
        index_map[old_rel_idx as usize]
    } else {
        match table_get(temp_map, reg_idx) {
            Some(v) => Some(v),
            None => {
                let v = *next_temp;
                if v == u32::MAX {
                    return None;
                }
                table_insert(temp_map, reg_idx, v);
                *next_temp = v + 1;
                Some(v)
            },
        }
    }
}

/// `renumber_all` from `j` on is the rest of what it is from 0 on.
proof fn lemma_renumber_all_step(st: Renumbering, regs: Seq<u32>, j: int, pc: u32, limit: u32, imap: Seq<Option<u32>>)
    requires
        0 <= j < regs.len(),
    ensures
        ({
            let (n, st1, ok1) = renumber(st, regs[j], pc, limit, imap);
            let (rest, st2, ok2) = renumber_all(st1, regs, j + 1, pc, limit, imap);
            renumber_all(st, regs, j, pc, limit, imap) == (seq![n] + rest, st2, ok1 && ok2)
        }),
{
}

/// Renumbers every register of `instructions` and of their pool slices, then
/// the output register, which it returns; `None` where the renumbering does
/// not go through, and then nothing is said of what was left behind.
fn try_remap_after_constant_compaction(
    instructions: &mut Vec<Instruction>,
    arg_pool: &mut Vec<u32>,
    index_map: &Vec<Option<u32>>,
    param_count_u32: u32,
    const_limit_u32: u32,
    output_reg: u32,
    new_const_count: usize,
) -> (new_output: Option<u32>)
    requires
        param_count_u32 <= const_limit_u32,
        index_map@.len() == const_limit_u32 - param_count_u32,
        param_count_u32 + new_const_count <= u32::MAX,
        pools_ok(old(instructions)@, old(arg_pool)@),
    ensures
        ({
            let pre = renumber_upto(old(instructions)@, old(arg_pool)@, old(instructions)@.len() as int, param_count_u32,
                const_limit_u32, index_map@, (param_count_u32 + new_const_count) as u32);
            let last = renumber(pre.st, output_reg, param_count_u32, const_limit_u32, index_map@);
            &&& new_output is Some == (pre.ok && last.2)
            &&& new_output is Some ==> final(instructions)@ == pre.out
            &&& new_output is Some ==> final(arg_pool)@ == pre.pool
            &&& new_output is Some ==> new_output->0 == last.0
        }),
{
    let ghost s = instructions@;
    let ghost pool0 = arg_pool@;
    let ghost imap = index_map@;
    let ghost start = (param_count_u32 + new_const_count) as u32;
    let temp_start = param_count_u32 + new_const_count as u32;
    let mut next_temp: u32 = temp_start;
    let mut temp_map = table_new();
    let n = instructions.len();
    let mut k: usize = 0;
    proof {
        assert(renumbering_of(temp_map, next_temp) == renumber_upto(s, pool0, 0, param_count_u32, const_limit_u32, imap, start).st);
    }
    while k < n
        invariant
            k <= n,
            n == s.len(),
            instructions@.len() == n,
            arg_pool@.len() == pool0.len(),
            param_count_u32 <= const_limit_u32,
            imap == index_map@,
            imap.len() == const_limit_u32 - param_count_u32,
            pools_ok(s, pool0),
            s == old(instructions)@,
            pool0 == old(arg_pool)@,
            start == (param_count_u32 + new_const_count) as u32,
            renumber_upto(s, pool0, k as int, param_count_u32, const_limit_u32, imap, start).ok,
            forall|q: int| 0 <= q < k ==> #[trigger] instructions@[q] == renumber_upto(s, pool0, k as int, param_count_u32, const_limit_u32, imap, start).out[q],
            forall|q: int| k <= q < n ==> #[trigger] instructions@[q] == s[q],
            renumber_upto(s, pool0, k as int, param_count_u32, const_limit_u32, imap, start).out.len() == k,
            arg_pool@ == renumber_upto(s, pool0, k as int, param_count_u32, const_limit_u32, imap, start).pool,
            renumbering_of(temp_map, next_temp) == renumber_upto(s, pool0, k as int, param_count_u32, const_limit_u32, imap, start).st,
        decreases n - k,
    {
        let ghost pre = renumber_upto(s, pool0, k as int, param_count_u32, const_limit_u32, imap, start);
        let instr = instructions[k];
        assert(instr == s[k as int]);
        let fs = fields(&instr);
        let ghost fres = renumber_all(pre.st, fs@, 0, param_count_u32, const_limit_u32, imap);
        let ghost total = renumber_upto(s, pool0, n as int, param_count_u32, const_limit_u32, imap, start).ok;
        proof {
            if !fres.2 {
                assert(!renumber_upto(s, pool0, k + 1, param_count_u32, const_limit_u32, imap, start).ok);
                lemma_renumber_fails_on(s, pool0, k + 1, n as int, param_count_u32, const_limit_u32, imap, start);
            }
        }
        let mut vals: Vec<u32> = Vec::new();
        let mut j: usize = 0;
        while j < fs.len()
            invariant
                j <= fs@.len(),
                param_count_u32 <= const_limit_u32,
                imap == index_map@,
                imap.len() == const_limit_u32 - param_count_u32,
                !fres.2 ==> !total,
                s == old(instructions)@,
                pool0 == old(arg_pool)@,
                n == s.len(),
                start == (param_count_u32 + new_const_count) as u32,
                total == renumber_upto(s, pool0, n as int, param_count_u32, const_limit_u32, imap, start).ok,
                ({
                    let r = renumber_all(renumbering_of(temp_map, next_temp), fs@, j as int, param_count_u32, const_limit_u32, imap);
                    &&& fres.0 == vals@ + r.0
                    &&& fres.1 == r.1
                    &&& fres.2 == r.2
                }),
            decreases fs.len() - j,
        {
            proof {
                lemma_renumber_all_step(renumbering_of(temp_map, next_temp), fs@, j as int, param_count_u32, const_limit_u32, imap);
            }
            let v = match try_remap_register(fs[j], param_count_u32, const_limit_u32, index_map, &mut temp_map, &mut next_temp) {
                Some(v) => v,
                None => {
                    return None;
                },
            };
            proof {
                let r = renumber_all(renumbering_of(temp_map, next_temp), fs@, j + 1, param_count_u32, const_limit_u32, imap);
                assert(vals@.push(v) + r.0 =~= vals@ + (seq![v] + r.0));
            }
            vals.push(v);
            j = j + 1;
        }
        proof {
            assert(vals@ =~= fres.0);
            lemma_renumber_all_len(pre.st, fs@, 0, param_count_u32, const_limit_u32, imap);
        }
        let new_instr = replace_fields(&instr, &vals);
        let ghost pres = renumber_pool(fres.1, instr, pre.pool, param_count_u32, const_limit_u32, imap);
        match instr.arg_pool_range() {
            Some((s32, c32)) => {
                let st: usize = s32 as usize;
                let c: usize = c32 as usize;
                let plen = arg_pool.len();
                assert(pool_ok(s[k as int], pool0));
                let ghost slice = pre.pool.subrange(st as int, st + c);
                let ghost sres = renumber_all(fres.1, slice, 0, param_count_u32, const_limit_u32, imap);
                proof {
                    if !sres.2 {
                        assert(!pres.2);
                        assert(!renumber_upto(s, pool0, k + 1, param_count_u32, const_limit_u32, imap, start).ok);
                        lemma_renumber_fails_on(s, pool0, k + 1, n as int, param_count_u32, const_limit_u32, imap, start);
                    }
                }
                let mut q: usize = 0;
                while q < c
                    invariant
                        q <= c,
                        st + c <= arg_pool@.len(),
                        plen == arg_pool@.len(),
                        arg_pool@.len() == pre.pool.len(),
                        slice == pre.pool.subrange(st as int, st + c),
                        param_count_u32 <= const_limit_u32,
                        imap == index_map@,
                        imap.len() == const_limit_u32 - param_count_u32,
                        !sres.2 ==> !total,
                        s == old(instructions)@,
                        pool0 == old(arg_pool)@,
                        n == s.len(),
                        start == (param_count_u32 + new_const_count) as u32,
                        total == renumber_upto(s, pool0, n as int, param_count_u32, const_limit_u32, imap, start).ok,
                        ({
                            let r = renumber_all(renumbering_of(temp_map, next_temp), slice, q as int, param_count_u32, const_limit_u32, imap);
                            &&& sres.0 == arg_pool@.subrange(st as int, st + q) + r.0
                            &&& sres.1 == r.1
                            &&& sres.2 == r.2
                        }),
                        arg_pool@.subrange(0, st as int) == pre.pool.subrange(0, st as int),
                        arg_pool@.subrange(st + q, arg_pool@.len() as int) == pre.pool.subrange(st + q, pre.pool.len() as int),
                    decreases c - q,
                {
                    proof {
                        lemma_renumber_all_step(renumbering_of(temp_map, next_temp), slice, q as int, param_count_u32, const_limit_u32, imap);
                        assert(slice[q as int] == arg_pool@[st + q]) by {
                            assert(arg_pool@.subrange(st + q, arg_pool@.len() as int)[0] == arg_pool@[st + q]);
                        }
                    }
                    let idx: usize = st + q;
                    let old_v = arg_pool[idx];
                    let v = match try_remap_register(old_v, param_count_u32, const_limit_u32, index_map, &mut temp_map, &mut next_temp) {
                        Some(v) => v,
                        None => {
                            return None;
                        },
                    };
                    let ghost before = arg_pool@;
                    arg_pool.set(idx, v);
                    proof {
                        let r = renumber_all(renumbering_of(temp_map, next_temp), slice, q + 1, param_count_u32, const_limit_u32, imap);
                        assert(arg_pool@.subrange(st as int, st + q + 1) =~= before.subrange(st as int, st + q).push(v));
                        assert(before.subrange(st as int, st + q).push(v) + r.0 =~= before.subrange(st as int, st + q) + (seq![v] + r.0));
                        assert(arg_pool@.subrange(0, st as int) =~= before.subrange(0, st as int));
                        assert(arg_pool@.subrange(st + q + 1, arg_pool@.len() as int) =~= before.subrange(st + q + 1, before.len() as int));
                        assert(before.subrange(st + q + 1, before.len() as int) =~= before.subrange(st + q, before.len() as int).subrange(1, before.len() - st - q));
                        assert(pre.pool.subrange(st + q + 1, pre.pool.len() as int) =~= pre.pool.subrange(st + q, pre.pool.len() as int).subrange(1, pre.pool.len() - st - q));
                    }
                    q = q + 1;
                }
                proof {
                    assert(arg_pool@ =~= arg_pool@.subrange(0, st as int) + arg_pool@.subrange(st as int, st + c) + arg_pool@.subrange(st + c, arg_pool@.len() as int));
                    assert(arg_pool@.subrange(st as int, st + c) =~= sres.0);
                    assert(sres.2);
                }
            },
            None => {},
        }
        instructions.set(k, new_instr);
        proof {
            let nxt = renumber_upto(s, pool0, k + 1, param_count_u32, const_limit_u32, imap, start);
            assert(fres.2);
            assert(nxt.ok);
            assert(nxt.out == pre.out.push(with_fields(s[k as int], fres.0)));
            assert(instructions@[k as int] == nxt.out[k as int]);
            assert forall|q: int| 0 <= q < k implies #[trigger] instructions@[q] == nxt.out[q] by {
                assert(nxt.out[q] == pre.out[q]);
            }
        }
        k = k + 1;
    }
    try_remap_register(output_reg, param_count_u32, const_limit_u32, index_map, &mut temp_map, &mut next_temp)
}

proof fn lemma_renumber_all_len(st: Renumbering, regs: Seq<u32>, j: int, pc: u32, limit: u32, imap: Seq<Option<u32>>)
    requires
        0 <= j <= regs.len(),
    ensures
        renumber_all(st, regs, j, pc, limit, imap).0.len() == regs.len() - j,
    decreases regs.len() - j,
{
    if j < regs.len() {
        let (n, st1, ok1) = renumber(st, regs[j], pc, limit, imap);
        lemma_renumber_all_len(st1, regs, j + 1, pc, limit, imap);
    }
}

/// A renumbering that fails after `j` instructions fails after more.
proof fn lemma_renumber_fails_on(instrs: Seq<Instruction>, pool: Seq<u32>, j: int, k: int, pc: u32, limit: u32, imap: Seq<Option<u32>>, start: u32)
    requires
        0 <= j <= k,
        !renumber_upto(instrs, pool, j, pc, limit, imap, start).ok,
    ensures
        !renumber_upto(instrs, pool, k, pc, limit, imap, start).ok,
{
    if renumber_upto(instrs, pool, k, pc, limit, imap, start).ok {
        lemma_renumber_ok_mono(instrs, pool, j, k, pc, limit, imap, start);
    }
}

/// Whether a renumbering that went through after `k` instructions went
/// through after fewer.
proof fn lemma_renumber_ok_mono(instrs: Seq<Instruction>, pool: Seq<u32>, j: int, k: int, pc: u32, limit: u32, imap: Seq<Option<u32>>, start: u32)
    requires
        0 <= j <= k,
        renumber_upto(instrs, pool, k, pc, limit, imap, start).ok,
    ensures
        renumber_upto(instrs, pool, j, pc, limit, imap, start).ok,
    decreases k - j,
{
    if j < k {
        lemma_renumber_ok_mono(instrs, pool, j, k - 1, pc, limit, imap, start);
    }
}

// ---------------------------------------------------------------------------
// The pass
// ---------------------------------------------------------------------------

/// The largest of `m` and the registers of `s`.
pub open spec fn seq_max(s: Seq<u32>, m: u32) -> u32
    decreases s.len(),
{
    if s.len() == 0 {
        m
    } else {
        let x = seq_max(s.drop_last(), m);
        if s.last() > x { s.last() } else { x }
    }
}

/// The largest register the first `k` instructions name, in their fields or
/// through the pool; 0 when there is none.
pub open spec fn max_reg_upto(instrs: Seq<Instruction>, pool: Seq<u32>, k: int) -> u32
    decreases k,
{
    if k <= 0 {
        0
    } else {
        seq_max(super::uses::pooled_reads_of(instrs[k - 1], pool), seq_max(fields_of(instrs[k - 1]), max_reg_upto(instrs, pool, k - 1)))
    }
}

/// The largest of `m` and the registers of `v`.
fn vec_max(v: &Vec<u32>, m: u32) -> (r: u32)
    ensures
        r == seq_max(v@, m),
{
    let mut r = m;
    let mut j: usize = 0;
    while j < v.len()
        invariant
            j <= v@.len(),
            r == seq_max(v@.subrange(0, j as int), m),
        decreases v.len() - j,
    {
        proof {
            assert(v@.subrange(0, j + 1).drop_last() =~= v@.subrange(0, j as int));
        }
        if v[j] > r {
            r = v[j];
        }
        j = j + 1;
    }
    proof {
        assert(v@.subrange(0, v@.len() as int) =~= v@);
    }
    r
}

/// The largest register the instructions name.
fn max_register_index(instrs: &Vec<Instruction>, arg_pool: &Vec<u32>) -> (r: u32)
    requires
        pools_ok(instrs@, arg_pool@),
    ensures
        r == max_reg_upto(instrs@, arg_pool@, instrs@.len() as int),
{
    let mut final_max_reg: u32 = 0;
    let mut k: usize = 0;
    while k < instrs.len()
        invariant
            k <= instrs@.len(),
            pools_ok(instrs@, arg_pool@),
            final_max_reg == max_reg_upto(instrs@, arg_pool@, k as int),
        decreases instrs.len() - k,
    {
        assert(pool_ok(instrs@[k as int], arg_pool@));
        let fs = fields(&instrs[k]);
        let m1 = vec_max(&fs, final_max_reg);
        let pr = super::uses::pooled_reads(&instrs[k], arg_pool);
        final_max_reg = vec_max(&pr, m1);
        k = k + 1;
    }
    final_max_reg
}

/// Renumbering keeps every pool slice and the pool's length.
proof fn lemma_renumber_shape(instrs: Seq<Instruction>, pool: Seq<u32>, k: int, pc: u32, limit: u32, imap: Seq<Option<u32>>, start: u32)
    requires
        0 <= k <= instrs.len(),
        pools_ok(instrs, pool),
    ensures
        renumber_upto(instrs, pool, k, pc, limit, imap, start).out.len() == k,
        renumber_upto(instrs, pool, k, pc, limit, imap, start).pool.len() == pool.len(),
        forall|q: int| 0 <= q < k ==> pool_range_of(#[trigger] renumber_upto(instrs, pool, k, pc, limit, imap, start).out[q])
            == pool_range_of(instrs[q]),
        pools_ok(renumber_upto(instrs, pool, k, pc, limit, imap, start).out, renumber_upto(instrs, pool, k, pc, limit, imap, start).pool),
    decreases k,
{
    if k > 0 {
        lemma_renumber_shape(instrs, pool, k - 1, pc, limit, imap, start);
        let prev = renumber_upto(instrs, pool, k - 1, pc, limit, imap, start);
        let cur = renumber_upto(instrs, pool, k, pc, limit, imap, start);
        let i = instrs[k - 1];
        let (vals, st1, ok1) = renumber_all(prev.st, fields_of(i), 0, pc, limit, imap);
        assert(pool_range_of(with_fields(i, vals)) == pool_range_of(i));
        assert(pool_ok(i, pool));
        match pool_range_of(i) {
            Some((st, c)) => {
                lemma_renumber_all_len(st1, prev.pool.subrange(st as int, st + c), 0, pc, limit, imap);
            },
            None => {},
        }
        assert forall|q: int| 0 <= q < k implies pool_range_of(#[trigger] cur.out[q]) == pool_range_of(instrs[q]) by {
            if q < k - 1 {
                assert(cur.out[q] == prev.out[q]);
            }
        }
        assert forall|q: int| 0 <= q < cur.out.len() implies pool_ok(#[trigger] cur.out[q], cur.pool) by {
            assert(pool_range_of(cur.out[q]) == pool_range_of(instrs[q]));
            assert(pool_ok(instrs[q], pool));
        }
    } else {
        assert forall|q: int| 0 <= q < 0 implies pool_ok(#[trigger] renumber_upto(instrs, pool, k, pc, limit, imap, start).out[q],
            renumber_upto(instrs, pool, k, pc, limit, imap, start).pool) by {}
    }
}

/// Whether every constant flag is set.
pub open spec fn all_set(used: Seq<bool>) -> bool {
    forall|c: int| 0 <= c < used.len() ==> used[c]
}

/// The renumbering the pass applies when some constant is unused.
pub open spec fn compaction(instrs: Seq<Instruction>, pool: Seq<u32>, pc: u32, cc: nat, output_reg: u32) -> RenumberedPrefix {
    let used = used_constants(instrs, pool, pc, cc, output_reg);
    renumber_upto(instrs, pool, instrs.len() as int, pc, (pc + cc) as u32, new_const_regs(used, pc),
        (pc + rank(used, cc as int)) as u32)
}

/// The output register after that renumbering, and whether it went through.
pub open spec fn compacted_output(instrs: Seq<Instruction>, pool: Seq<u32>, pc: u32, cc: nat, output_reg: u32) -> (u32, bool) {
    let used = used_constants(instrs, pool, pc, cc, output_reg);
    let r = renumber(compaction(instrs, pool, pc, cc, output_reg).st, output_reg, pc, (pc + cc) as u32, new_const_regs(used, pc));
    (r.0, r.2)
}

/// The register count: one past the largest register named, and at least
/// the parameters and constants.
pub open spec fn register_count(instrs: Seq<Instruction>, pool: Seq<u32>, floor: int) -> int {
    let m = max_reg_upto(instrs, pool, instrs.len() as int) + 1;
    if m >= floor { m } else { floor }
}

/// Whether compaction can run: when some constant is unused, the
/// renumbering goes through, and the largest register afterwards leaves room
/// for the register count in `usize`.
pub open spec fn compactable(instrs: Seq<Instruction>, pool: Seq<u32>, pc: u32, cc: nat, output_reg: u32) -> bool {
    let used = used_constants(instrs, pool, pc, cc, output_reg);
    let packed = compaction(instrs, pool, pc, cc, output_reg);
    if all_set(used) {
        max_reg_upto(instrs, pool, instrs.len() as int) < usize::MAX
    } else {
        &&& packed.ok
        &&& compacted_output(instrs, pool, pc, cc, output_reg).1
        &&& max_reg_upto(packed.out, packed.pool, packed.out.len() as int) < usize::MAX
    }
}

/// Whether every flag is set.
fn every_flag_set(flags: &Vec<bool>) -> (r: bool)
    ensures
        r == all_set(flags@),
{
    let mut all = true;
    let mut c: usize = 0;
    while c < flags.len()
        invariant
            c <= flags@.len(),
            all == (forall|q: int| 0 <= q < c ==> flags@[q]),
        decreases flags.len() - c,
    {
        if !flags[c] {
            all = false;
        }
        c = c + 1;
    }
    all
}

/// A copy of `v`.
fn copy_vec<T: Copy>(v: &Vec<T>) -> (r: Vec<T>)
    ensures
        r@ == v@,
{
    let mut r: Vec<T> = Vec::new();
    let mut j: usize = 0;
    while j < v.len()
        invariant
            j <= v@.len(),
            r@ == v@.subrange(0, j as int),
        decreases v.len() - j,
    {
        r.push(v[j]);
        proof {
            assert(r@ =~= v@.subrange(0, j + 1));
        }
        j = j + 1;
    }
    proof {
        assert(r@ =~= v@);
    }
    r
}

/// Whether `compact_constants` can run on these instructions: it tries the
/// renumbering on a copy and measures the result.
pub fn compaction_fits(
    out: &Vec<Instruction>,
    arg_pool: &Vec<u32>,
    param_count: usize,
    old_const_count: usize,
    output_reg: u32,
) -> (r: bool)
    requires
        param_count + old_const_count <= u32::MAX,
        pools_ok(out@, arg_pool@),
    ensures
        r == compactable(out@, arg_pool@, param_count as u32, old_const_count as nat, output_reg),
{
    let param_count_u32 = param_count as u32;
    let const_limit_u32 = (param_count + old_const_count) as u32;
    let used = collect_used_constant_indices(out, arg_pool, param_count_u32, const_limit_u32, old_const_count, output_reg);
    if every_flag_set(&used) {
        let m = max_register_index(out, arg_pool);
        return (m as usize) < usize::MAX;
    }
    let (index_map, kept_count) = constant_slots(&used, param_count_u32);
    proof {
        lemma_rank_le(used@, old_const_count as int);
    }
    let mut instrs = copy_vec(out);
    let mut pool = copy_vec(arg_pool);
    let new_output = try_remap_after_constant_compaction(
        &mut instrs,
        &mut pool,
        &index_map,
        param_count_u32,
        const_limit_u32,
        output_reg,
        kept_count as usize,
    );
    match new_output {
        None => false,
        Some(_) => {
            proof {
                lemma_renumber_shape(out@, arg_pool@, out@.len() as int, param_count_u32, const_limit_u32,
                    index_map@, (param_count_u32 + kept_count) as u32);
            }
            let m = max_register_index(&instrs, &pool);
            (m as usize) < usize::MAX
        },
    }
}

/// Drops the constants that nothing uses and renumbers the registers densely.
///
/// Returns the instructions, the register count, and the new output
/// register. When every constant is used, nothing changes but the count.
pub fn compact_constants<T: Copy>(
    out: Vec<Instruction>,
    constants: &mut Vec<T>,
    arg_pool: &mut Vec<u32>,
    param_count: usize,
    old_const_count: usize,
    output_reg: u32,
) -> (r: (Vec<Instruction>, usize, u32))
    requires
        param_count + old_const_count <= u32::MAX,
        old(constants)@.len() >= old_const_count,
        param_count + old(constants)@.len() <= usize::MAX,
        pools_ok(out@, old(arg_pool)@),
        compactable(out@, old(arg_pool)@, param_count as u32, old_const_count as nat, output_reg),
    ensures
        ({
            let pc = param_count as u32;
            let used = used_constants(out@, old(arg_pool)@, pc, old_const_count as nat, output_reg);
            if all_set(used) {
                &&& r.0@ == out@
                &&& final(constants)@ == old(constants)@
                &&& final(arg_pool)@ == old(arg_pool)@
                &&& r.1 == register_count(out@, old(arg_pool)@, param_count + old(constants)@.len())
                &&& r.2 == output_reg
            } else {
                let packed = compaction(out@, old(arg_pool)@, pc, old_const_count as nat, output_reg);
                &&& r.0@ == packed.out
                &&& final(constants)@ == kept(old(constants)@, used, old_const_count as int)
                &&& final(arg_pool)@ == packed.pool
                &&& r.1 == register_count(packed.out, packed.pool, param_count + rank(used, old_const_count as int))
                &&& r.2 == compacted_output(out@, old(arg_pool)@, pc, old_const_count as nat, output_reg).0
            }
        }),
{
    let ghost out0 = out@;
    let mut out = out;
    let param_count_u32 = param_count as u32;
    let const_limit_u32 = (param_count + old_const_count) as u32;
    let all_used_indices = collect_used_constant_indices(&out, arg_pool, param_count_u32, const_limit_u32, old_const_count, output_reg);
    if every_flag_set(&all_used_indices) {
        let final_max_reg = max_register_index(&out, arg_pool);
        let m = final_max_reg as usize + 1;
        let floor = param_count + constants.len();
        return (out, if m >= floor { m } else { floor }, output_reg);
    }
    let ghost used = all_used_indices@;
    proof {
        lemma_rank_le(used, old_const_count as int);
        lemma_kept_len(constants@, used, old_const_count as int);
    }
    let (index_map, _) = constant_slots(&all_used_indices, param_count_u32);
    compact_constant_pool(constants, &all_used_indices);
    let new_output_reg = match try_remap_after_constant_compaction(
        &mut out,
        arg_pool,
        &index_map,
        param_count_u32,
        const_limit_u32,
        output_reg,
        constants.len(),
    ) {
        Some(r) => r,
        None => {
            proof {
                assert(false);
            }
            output_reg
        },
    };
    proof {
        lemma_renumber_shape(out0, old(arg_pool)@, out0.len() as int, param_count_u32, const_limit_u32,
            index_map@, (param_count_u32 + rank(used, old_const_count as int)) as u32);
    }
    let final_max_reg = max_register_index(&out, arg_pool);
    let m = final_max_reg as usize + 1;
    let floor = param_count + constants.len();
    (out, if m >= floor { m } else { floor }, new_output_reg)
}

// ---------------------------------------------------------------------------
// Laws
// ---------------------------------------------------------------------------

/// Temporaries met so far have distinct numbers from `start` up to the next free one.
pub open spec fn numbering_ok(st: Renumbering, start: int) -> bool {
    &&& start <= st.next
    &&& forall|r: u32| #[trigger] st.tmap.contains_key(r) ==> start <= st.tmap[r] < st.next
    &&& forall|r1: u32, r2: u32| st.tmap.contains_key(r1) && st.tmap.contains_key(r2) && r1 != r2
            ==> #[trigger] st.tmap[r1] != #[trigger] st.tmap[r2]
}

proof fn lemma_renumber_keeps_ok(st: Renumbering, r: u32, pc: u32, limit: u32, imap: Seq<Option<u32>>, start: int)
    requires
        numbering_ok(st, start),
        st.next <= u32::MAX,
        renumber(st, r, pc, limit, imap).2,
        0 <= start,
    ensures
        numbering_ok(renumber(st, r, pc, limit, imap).1, start),
        renumber(st, r, pc, limit, imap).1.next <= u32::MAX,
{
    if r >= limit && !st.tmap.contains_key(r) {
        let st1 = renumber(st, r, pc, limit, imap).1;
        let v = st.next as u32;
        assert(v as int == st.next);
        assert forall|x: u32| #[trigger] st1.tmap.contains_key(x) implies start <= st1.tmap[x] < st1.next by {
            if x != r {
                assert(st.tmap.contains_key(x));
            }
        }
        assert forall|r1: u32, r2: u32| st1.tmap.contains_key(r1) && st1.tmap.contains_key(r2) && r1 != r2
            implies #[trigger] st1.tmap[r1] != #[trigger] st1.tmap[r2] by {
            if r1 != r && r2 != r {
                assert(st.tmap.contains_key(r1) && st.tmap.contains_key(r2));
            } else if r1 == r {
                assert(st.tmap.contains_key(r2));
            } else {
                assert(st.tmap.contains_key(r1));
            }
        }
    }
}

proof fn lemma_renumber_all_keeps_ok(st: Renumbering, regs: Seq<u32>, j: int, pc: u32, limit: u32, imap: Seq<Option<u32>>, start: int)
    requires
        numbering_ok(st, start),
        st.next <= u32::MAX,
        renumber_all(st, regs, j, pc, limit, imap).2,
        0 <= start,
    ensures
        numbering_ok(renumber_all(st, regs, j, pc, limit, imap).1, start),
        renumber_all(st, regs, j, pc, limit, imap).1.next <= u32::MAX,
    decreases regs.len() - j,
{
    if 0 <= j < regs.len() {
        lemma_renumber_keeps_ok(st, regs[j], pc, limit, imap, start);
        let (n, st1, ok1) = renumber(st, regs[j], pc, limit, imap);
        lemma_renumber_all_keeps_ok(st1, regs, j + 1, pc, limit, imap, start);
    }
}

proof fn lemma_renumber_upto_ok(instrs: Seq<Instruction>, pool: Seq<u32>, k: int, pc: u32, limit: u32, imap: Seq<Option<u32>>, start: u32)
    requires
        0 <= k,
        renumber_upto(instrs, pool, k, pc, limit, imap, start).ok,
    ensures
        numbering_ok(renumber_upto(instrs, pool, k, pc, limit, imap, start).st, start as int),
        renumber_upto(instrs, pool, k, pc, limit, imap, start).st.next <= u32::MAX,
    decreases k,
{
    if k > 0 {
        lemma_renumber_upto_ok(instrs, pool, k - 1, pc, limit, imap, start);
        let prev = renumber_upto(instrs, pool, k - 1, pc, limit, imap, start);
        let i = instrs[k - 1];
        lemma_renumber_all_keeps_ok(prev.st, fields_of(i), 0, pc, limit, imap, start as int);
        let (vals, st1, ok1) = renumber_all(prev.st, fields_of(i), 0, pc, limit, imap);
        match pool_range_of(i) {
            Some((s0, c)) => {
                lemma_renumber_all_keeps_ok(st1, prev.pool.subrange(s0 as int, s0 + c), 0, pc, limit, imap, start as int);
            },
            None => {},
        }
    }
}

proof fn lemma_rank_mono(used: Seq<bool>, a: int, b: int)
    requires
        0 <= a <= b <= used.len(),
    ensures
        rank(used, a) <= rank(used, b),
        a < b && used[a] ==> rank(used, a) < rank(used, b),
    decreases b - a,
{
    if a < b {
        lemma_rank_mono(used, a, b - 1);
        if a == b - 1 {
        }
    }
}

/// Law: compaction numbers registers without collisions.
///
/// Used constants get distinct numbers right after the parameters, in their
/// old order; temporaries get distinct numbers from the first register after
/// the kept constants on. (Of a compaction that goes through, as the pass
/// requires.)
pub proof fn law_compaction_numbers_are_distinct(instrs: Seq<Instruction>, pool: Seq<u32>, pc: u32, cc: nat, output_reg: u32)
    requires
        pc + cc <= u32::MAX,
        compaction(instrs, pool, pc, cc, output_reg).ok,
    ensures
        ({
            let used = used_constants(instrs, pool, pc, cc, output_reg);
            let imap = new_const_regs(used, pc);
            let start = pc + rank(used, cc as int);
            let packed = compaction(instrs, pool, pc, cc, output_reg);
            &&& forall|c: int| 0 <= c < cc && used[c] ==> pc <= #[trigger] imap[c].unwrap() < start
            &&& forall|c1: int, c2: int| 0 <= c1 < c2 < cc && used[c1] && used[c2] ==>
                    #[trigger] imap[c1].unwrap() < #[trigger] imap[c2].unwrap()
            &&& numbering_ok(packed.st, start)
        }),
{
    let used = used_constants(instrs, pool, pc, cc, output_reg);
    let start = pc + rank(used, cc as int);
    lemma_rank_le(used, cc as int);
    assert forall|c: int| 0 <= c < cc && used[c] implies pc <= #[trigger] new_const_regs(used, pc)[c].unwrap() < start by {
        lemma_rank_mono(used, c, cc as int);
    }
    assert forall|c1: int, c2: int| 0 <= c1 < c2 < cc && used[c1] && used[c2] implies
        #[trigger] new_const_regs(used, pc)[c1].unwrap() < #[trigger] new_const_regs(used, pc)[c2].unwrap() by {
        lemma_rank_mono(used, c1, c2);
        lemma_rank_mono(used, c2, cc as int);
    }
    lemma_renumber_upto_ok(instrs, pool, instrs.len() as int, pc, (pc + cc) as u32, new_const_regs(used, pc), start as u32);
}

} // verus!
