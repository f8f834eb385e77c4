//! The liveness tables a register allocator starts from.
//!
//! For every temporary the allocator records the last instruction that reads
//! it (the result temporary counts as read by the last instruction), the last
//! instruction that reads the value that will live in physical register 0,
//! and, for every instruction, the temporaries whose last read it is, as
//! linked lists threaded through two arrays.

use vstd::prelude::*;
use super::instruction::Instruction;
use super::lower::{emit_instruction, emitted, lower_of, pooled_count, pooled_of, reads_mappable, vphys, vreg_mappable};
use super::vir::{VInstruction, VReg, vdest_of, vreads_of};

verus! {

/// The allocator's starting state.
pub struct RegAllocator {
    param_count: u32,
    const_count: u32,
    num_temps: usize,
    last_use: Vec<Option<usize>>,
    death_heads: Vec<u32>,
    death_next: Vec<u32>,
    arg_pool: Vec<u32>,
    last_phys_0_read: Option<usize>,
}

/// The index of the last of the first `k` instructions that reads `r`.
pub open spec fn last_read(s: Seq<VInstruction>, r: VReg, k: int) -> Option<usize>
    decreases k,
{
    if k <= 0 {
        None
    } else if vreads_of(s[k - 1]).contains(r) {
        Some((k - 1) as usize)
    } else {
        last_read(s, r, k - 1)
    }
}

/// The last instruction that reads temporary `t`; the last instruction of all
/// for the result temporary.
pub open spec fn last_use_of(s: Seq<VInstruction>, t: int, result: Option<VReg>) -> Option<usize> {
    if result == Some(VReg::Temp(t as u32)) && s.len() > 0 {
        Some((s.len() - 1) as usize)
    } else {
        last_read(s, VReg::Temp(t as u32), s.len() as int)
    }
}

/// The register whose value lives in physical register 0: the first
/// parameter, else the first constant.
pub open spec fn phys_0_vreg(param_count: u32, const_count: u32) -> Option<VReg> {
    if param_count > 0 {
        Some(VReg::Param(0))
    } else if const_count > 0 {
        Some(VReg::Const(0))
    } else {
        None
    }
}

/// The largest temporary below `t` whose last use is `l`, if any.
pub open spec fn prev_dying(lu: Seq<Option<usize>>, l: usize, t: int) -> Option<int>
    decreases t,
{
    if t <= 0 {
        None
    } else if lu[t - 1] == Some(l) {
        Some(t - 1)
    } else {
        prev_dying(lu, l, t - 1)
    }
}

/// `Some(t)` as a list link, `u32::MAX` for the end of a list.
pub open spec fn link(o: Option<int>) -> u32 {
    match o {
        Some(t) => t as u32,
        None => u32::MAX,
    }
}

impl RegAllocator {
    /// The last use of each temporary.
    pub closed spec fn last_uses(self) -> Seq<Option<usize>> {
        self.last_use@
    }

    /// For each instruction, the first temporary of its list of dying temporaries.
    pub closed spec fn heads(self) -> Seq<u32> {
        self.death_heads@
    }

    /// For each temporary, the next temporary of its list of dying temporaries.
    pub closed spec fn nexts(self) -> Seq<u32> {
        self.death_next@
    }

    /// The last instruction that reads the value of physical register 0.
    pub closed spec fn phys_0_read(self) -> Option<usize> {
        self.last_phys_0_read
    }

    /// The numbers of parameters, constants and temporaries.
    pub closed spec fn counts(self) -> (u32, u32, usize) {
        (self.param_count, self.const_count, self.num_temps)
    }

    /// Whether the allocator's pool of operand lists is empty.
    pub closed spec fn pool_empty(self) -> bool {
        self.arg_pool@.len() == 0
    }

    /// The tables are consistent: each last use names an instruction, and the
    /// lists of dying temporaries thread through the two link arrays.
    pub closed spec fn wf(self) -> bool {
        &&& self.num_temps <= u32::MAX
        &&& self.last_use@.len() == self.num_temps
        &&& self.death_next@.len() == self.num_temps
        &&& self.arg_pool@.len() == 0
        &&& forall|t: int| 0 <= t < self.num_temps ==>
                (#[trigger] self.last_use@[t] matches Some(l) ==> l < self.death_heads@.len())
        &&& forall|i: int| 0 <= i < self.death_heads@.len() ==>
                #[trigger] self.death_heads@[i] == link(prev_dying(self.last_use@, i as usize, self.num_temps as int))
        &&& forall|t: int| 0 <= t < self.num_temps ==> #[trigger] self.death_next@[t] == (match self.last_use@[t] {
                Some(l) => link(prev_dying(self.last_use@, l, t)),
                None => u32::MAX,
            })
    }

    /// The liveness tables of `vinstrs`, whose temporaries are below `num_temps`.
    ///
    /// Each instruction's list starts at `heads()[i]` and follows `nexts()`: it
    /// holds the temporaries whose last use is `i`, largest first, and ends with
    /// `u32::MAX`.
    pub fn new(param_count: u32, const_count: u32, num_temps: usize, vinstrs: &[VInstruction], final_vreg: Option<VReg>) -> (r: Self)
        requires
            num_temps <= u32::MAX,
            forall|k: int, q: int| 0 <= k < vinstrs@.len() && 0 <= q < vreads_of(vinstrs@[k]).len() ==>
                (#[trigger] vreads_of(vinstrs@[k])[q] matches VReg::Temp(t) ==> t < num_temps),
            vinstrs@.len() > 0 ==> (final_vreg matches Some(VReg::Temp(t)) ==> t < num_temps),
        ensures
            r.wf(),
            r.counts() == (param_count, const_count, num_temps),
            r.pool_empty(),
            r.last_uses().len() == num_temps,
            forall|t: int| 0 <= t < num_temps ==> #[trigger] r.last_uses()[t] == last_use_of(vinstrs@, t, final_vreg),
            r.phys_0_read() == (match phys_0_vreg(param_count, const_count) {
                Some(p) => last_read(vinstrs@, p, vinstrs@.len() as int),
                None => None::<usize>,
            }),
            r.heads().len() == vinstrs@.len(),
            forall|i: int| 0 <= i < vinstrs@.len() ==> #[trigger] r.heads()[i] == link(prev_dying(r.last_uses(), i as usize, num_temps as int)),
            r.nexts().len() == num_temps,
            forall|t: int| 0 <= t < num_temps ==> #[trigger] r.nexts()[t] == (match r.last_uses()[t] {
                Some(l) => link(prev_dying(r.last_uses(), l, t)),
                None => u32::MAX,
            }),
    {
        let n = vinstrs.len();
        let mut last_use: Vec<Option<usize>> = Vec::new();
        let mut t: usize = 0;
        while t < num_temps
            invariant
                t <= num_temps,
                last_use@.len() == t,
                forall|q: int| 0 <= q < t ==> last_use@[q] is None,
            decreases num_temps - t,
        {
            last_use.push(None);
            t = t + 1;
        }
        let phys0: Option<VReg> = if param_count > 0 {
            Some(VReg::Param(0))
        } else if const_count > 0 {
            Some(VReg::Const(0))
        } else {
            None
        };
        let mut last_phys_0_read: Option<usize> = None;
        let mut idx: usize = 0;
        while idx < n
            invariant
                idx <= n,
                n == vinstrs@.len(),
                num_temps <= u32::MAX,
                last_use@.len() == num_temps,
                forall|k: int, q: int| 0 <= k < vinstrs@.len() && 0 <= q < vreads_of(vinstrs@[k]).len() ==>
                    (#[trigger] vreads_of(vinstrs@[k])[q] matches VReg::Temp(t) ==> t < num_temps),
                forall|q: int| 0 <= q < num_temps ==> #[trigger] last_use@[q] == last_read(vinstrs@, VReg::Temp(q as u32), idx as int),
                phys0 == phys_0_vreg(param_count, const_count),
                last_phys_0_read == (match phys0 {
                    Some(p) => last_read(vinstrs@, p, idx as int),
                    None => None::<usize>,
                }),
            decreases n - idx,
        {
            let rs = vinstrs[idx].reads();
            let ghost lu0 = last_use@;
            let ghost p0 = last_phys_0_read;
            let mut j: usize = 0;
            while j < rs.len()
                invariant
                    j <= rs@.len(),
                    rs@ == vreads_of(vinstrs@[idx as int]),
                    idx < n,
                    n == vinstrs@.len(),
                    num_temps <= u32::MAX,
                    last_use@.len() == num_temps,
                    forall|k: int, q: int| 0 <= k < vinstrs@.len() && 0 <= q < vreads_of(vinstrs@[k]).len() ==>
                        (#[trigger] vreads_of(vinstrs@[k])[q] matches VReg::Temp(t) ==> t < num_temps),
                    forall|q: int| 0 <= q < num_temps ==> #[trigger] last_use@[q] ==
                        (if rs@.subrange(0, j as int).contains(VReg::Temp(q as u32)) { Some(idx) } else { lu0[q] }),
                    phys0 == phys_0_vreg(param_count, const_count),
                    last_phys_0_read == (match phys0 {
                        Some(p) => if rs@.subrange(0, j as int).contains(p) { Some(idx) } else { p0 },
                        None => None::<usize>,
                    }),
                decreases rs.len() - j,
            {
                let src = rs[j];
                assert(vreads_of(vinstrs@[idx as int])[j as int] == src);
                proof {
                    let a = rs@.subrange(0, j as int);
                    let b = rs@.subrange(0, j + 1);
                    assert(b =~= a.push(src));
                    assert forall|x: VReg| #[trigger] b.contains(x) <==> (a.contains(x) || x == src) by {
                        if b.contains(x) {
                            let w = choose|w: int| 0 <= w < b.len() && b[w] == x;
                            if w < j {
                                assert(a[w] == x);
                            }
                        }
                        if a.contains(x) {
                            let w = choose|w: int| 0 <= w < a.len() && a[w] == x;
                            assert(b[w] == x);
                        }
                        if x == src {
                            assert(b[j as int] == x);
                        }
                    }
                }
                match src {
                    VReg::Temp(tt) => {
                        last_use.set(tt as usize, Some(idx));
                    },
                    _ => {
                        if phys0 == Some(src) {
                            last_phys_0_read = Some(idx);
                        }
                    },
                }
                j = j + 1;
            }
            proof {
                assert(rs@.subrange(0, rs@.len() as int) =~= rs@);
            }
            idx = idx + 1;
        }
        if n > 0 {
            if let Some(VReg::Temp(tt)) = final_vreg {
                let last_idx = n - 1;
                match last_use[tt as usize] {
                    Some(lu) => {
                        let m = if lu >= last_idx { lu } else { last_idx };
                        proof { lemma_last_read_below(vinstrs@, VReg::Temp(tt), n as int); }
                        last_use.set(tt as usize, Some(m));
                    },
                    None => {
                        last_use.set(tt as usize, Some(last_idx));
                    },
                }
            }
        }
        let mut death_heads: Vec<u32> = Vec::new();
        let mut i: usize = 0;
        while i < n
            invariant
                i <= n,
                death_heads@.len() == i,
                forall|q: int| 0 <= q < i ==> death_heads@[q] == u32::MAX,
            decreases n - i,
        {
            death_heads.push(u32::MAX);
            i = i + 1;
        }
        let mut death_next: Vec<u32> = Vec::new();
        let mut t: usize = 0;
        while t < num_temps
            invariant
                t <= num_temps,
                death_next@.len() == t,
                forall|q: int| 0 <= q < t ==> death_next@[q] == u32::MAX,
            decreases num_temps - t,
        {
            death_next.push(u32::MAX);
            t = t + 1;
        }
        proof {
            assert forall|q: int| 0 <= q < num_temps implies (#[trigger] last_use@[q] matches Some(l) ==> l < n) by {
                lemma_last_read_below(vinstrs@, VReg::Temp(q as u32), n as int);
            }
        }
        let ghost lu = last_use@;
        let mut t: usize = 0;
        while t < num_temps
            invariant
                t <= num_temps,
                num_temps <= u32::MAX,
                lu == last_use@,
                lu.len() == num_temps,
                forall|q: int| 0 <= q < num_temps ==> (#[trigger] lu[q] matches Some(l) ==> l < n),
                death_heads@.len() == n,
                death_next@.len() == num_temps,
                forall|i: int| 0 <= i < n ==> #[trigger] death_heads@[i] == link(prev_dying(lu, i as usize, t as int)),
                forall|q: int| 0 <= q < t ==> #[trigger] death_next@[q] == (match lu[q] {
                    Some(l) => link(prev_dying(lu, l, q)),
                    None => u32::MAX,
                }),
                forall|q: int| t <= q < num_temps ==> death_next@[q] == u32::MAX,
            decreases num_temps - t,
        {
            if let Some(l) = last_use[t] {
                let h = death_heads[l];
                death_next.set(t, h);
                death_heads.set(l, t as u32);
            }
            t = t + 1;
        }
        RegAllocator {
            param_count,
            const_count,
            num_temps,
            last_use,
            death_heads,
            death_next,
            arg_pool: Vec::new(),
            last_phys_0_read,
        }
    }
}

// ---------------------------------------------------------------------------
// Allocation
// ---------------------------------------------------------------------------

/// What the allocation of one program depends on besides the instructions.
pub struct AllocCtx {
    pub pc: u32,
    pub cc: u32,
    pub lu: Seq<Option<usize>>,
    pub p0: Option<usize>,
    pub fin: Option<VReg>,
}

/// The allocation state between two instructions.
pub struct AllocState {
    /// The physical register of each temporary, `u32::MAX` before its first definition.
    pub t2p: Seq<u32>,
    /// The free physical registers; the last one is taken first.
    pub free: Seq<u32>,
    /// One more than the largest register handed out so far.
    pub max_phys: int,
    /// The instructions emitted so far.
    pub out: Seq<Instruction>,
    /// The argument pool so far.
    pub pool: Seq<u32>,
}

/// The state before the first instruction: no temporary placed, no register
/// free, registers below the parameters and constants in use.
pub open spec fn alloc_init(ctx: AllocCtx) -> AllocState {
    AllocState {
        t2p: Seq::new(ctx.lu.len(), |t: int| u32::MAX),
        free: Seq::empty(),
        max_phys: ctx.pc + ctx.cc,
        out: Seq::empty(),
        pool: Seq::empty(),
    }
}

/// Whether the result, written at instruction `k`, goes straight to register
/// 0: there are neither parameters nor constants, and register 0 is not read
/// after `k`.
pub open spec fn takes_reg_0(ctx: AllocCtx, k: int) -> bool {
    &&& ctx.pc == 0
    &&& ctx.cc == 0
    &&& match ctx.p0 {
        None => true,
        Some(l) => l <= k,
    }
}

/// The physical register that instruction `k`, writing `d`, writes, and the
/// state once it is placed: parameters and constants keep their registers;
/// a temporary takes the last free register, else a new one, and gives it
/// back at once if nothing reads it.
pub open spec fn place(st: AllocState, d: VReg, k: int, ctx: AllocCtx) -> (u32, AllocState) {
    match d {
        VReg::Param(p) => (p, st),
        VReg::Const(c) => ((ctx.pc + c) as u32, st),
        VReg::Temp(t) => if ctx.fin == Some(d) && takes_reg_0(ctx, k) {
            (0u32, AllocState { t2p: st.t2p.update(t as int, 0u32), free: st.free, max_phys: st.max_phys, out: st.out, pool: st.pool })
        } else {
            let p: u32 = if st.free.len() > 0 { st.free.last() } else { st.max_phys as u32 };
            let free1 = if st.free.len() > 0 { st.free.drop_last() } else { st.free };
            let max1 = if st.free.len() > 0 { st.max_phys } else { st.max_phys + 1 };
            let free2 = if ctx.lu[t as int] is None { free1.push(p) } else { free1 };
            (p, AllocState { t2p: st.t2p.update(t as int, p), free: free2, max_phys: max1, out: st.out, pool: st.pool })
        },
    }
}

/// The registers freed after instruction `k`: those of the temporaries below
/// `t` whose last use is `k` and that were placed, largest temporary first.
pub open spec fn deaths_below(lu: Seq<Option<usize>>, t2p: Seq<u32>, k: int, t: int) -> Seq<u32>
    decreases t,
{
    if t <= 0 {
        Seq::empty()
    } else if lu[t - 1] == Some(k as usize) && t2p[t - 1] != u32::MAX {
        seq![t2p[t - 1]] + deaths_below(lu, t2p, k, t - 1)
    } else {
        deaths_below(lu, t2p, k, t - 1)
    }
}

/// The state after instruction `k`, `i`: its result is placed, it is emitted,
/// and the registers of the temporaries it reads for the last time are freed.
pub open spec fn alloc_step(st: AllocState, i: VInstruction, k: int, ctx: AllocCtx) -> AllocState {
    let (d, st1) = place(st, vdest_of(i), k, ctx);
    AllocState {
        t2p: st1.t2p,
        free: st1.free + deaths_below(ctx.lu, st1.t2p, k, ctx.lu.len() as int),
        max_phys: st1.max_phys,
        out: st1.out + emitted(lower_of(i, d, ctx.pc, st1.t2p, st1.pool.len() as int)),
        pool: st1.pool + pooled_of(i, ctx.pc, st1.t2p),
    }
}

/// The state after the first `k` instructions of `s`.
pub open spec fn alloc_upto(s: Seq<VInstruction>, k: int, ctx: AllocCtx) -> AllocState
    decreases k,
{
    if k <= 0 {
        alloc_init(ctx)
    } else {
        alloc_step(alloc_upto(s, k - 1, ctx), s[k - 1], k - 1, ctx)
    }
}

/// The physical register that holds the result.
pub open spec fn result_phys(fin: Option<VReg>, pc: u32, t2p: Seq<u32>) -> u32 {
    match fin {
        Some(r) => vphys(r, pc, t2p),
        None => pc,
    }
}

/// How many registers the first `k` instructions append to the argument pool.
pub open spec fn pooled_total(s: Seq<VInstruction>, k: int) -> nat
    decreases k,
{
    if k <= 0 {
        0
    } else {
        pooled_total(s, k - 1) + pooled_count(s[k - 1])
    }
}

/// Whether every register of `s`, read or written, can be mapped.
pub open spec fn all_mappable(s: Seq<VInstruction>, pc: u32, nt: nat) -> bool {
    forall|k: int| 0 <= k < s.len() ==>
        vreg_mappable(vdest_of(#[trigger] s[k]), pc, nt) && reads_mappable(s[k], pc, nt)
}

impl RegAllocator {
    /// What the allocation depends on besides the instructions, `fin` being
    /// the result register.
    pub closed spec fn ctx(self, fin: Option<VReg>) -> AllocCtx {
        AllocCtx { pc: self.param_count, cc: self.const_count, lu: self.last_use@, p0: self.last_phys_0_read, fin }
    }

    /// Lowers `vinstrs` to physical registers, in one pass.
    ///
    /// Returns the instructions, the argument pool, the number of registers
    /// used and the register that holds the result. Each result is placed as
    /// `place` says, and each register is freed after the last instruction
    /// that reads its temporary, as `alloc_step` says.
    pub fn allocate(self, vinstrs: Vec<VInstruction>, final_vreg: Option<VReg>) -> (r: (Vec<Instruction>, Vec<u32>, usize, u32))
        requires
            self.wf(),
            vinstrs@.len() == self.heads().len(),
            all_mappable(vinstrs@, self.counts().0, self.counts().2 as nat),
            final_vreg matches Some(f) ==> vreg_mappable(f, self.counts().0, self.counts().2 as nat),
            self.counts().0 + self.counts().1 + vinstrs@.len() <= u32::MAX,
            pooled_total(vinstrs@, vinstrs@.len() as int) <= u32::MAX,
        ensures
            ({
                let st = alloc_upto(vinstrs@, vinstrs@.len() as int, self.ctx(final_vreg));
                &&& r.0@ == st.out
                &&& r.1@ == st.pool
                &&& r.2 == st.max_phys
                &&& r.3 == result_phys(final_vreg, self.counts().0, st.t2p)
            }),
    {
        let ghost ctx = self.ctx(final_vreg);
        let RegAllocator {
            param_count,
            const_count,
            num_temps,
            last_use,
            death_heads,
            death_next,
            arg_pool,
            last_phys_0_read,
        } = self;
        let n = vinstrs.len();
        let mut pool = arg_pool;
        let mut max_phys: u32 = param_count + const_count;
        let mut temp_to_phys: Vec<u32> = Vec::new();
        let mut t: usize = 0;
        while t < num_temps
            invariant
                t <= num_temps,
                temp_to_phys@ =~= Seq::new(t as nat, |q: int| u32::MAX),
            decreases num_temps - t,
        {
            temp_to_phys.push(u32::MAX);
            t = t + 1;
        }
        let mut free_phys: Vec<u32> = Vec::new();
        let mut instructions: Vec<Instruction> = Vec::new();
        proof {
            assert(pool@ =~= Seq::<u32>::empty());
        }
        let mut idx: usize = 0;
        while idx < n
            invariant
                idx <= n,
                n == vinstrs@.len(),
                n == death_heads@.len(),
                ctx == (AllocCtx { pc: param_count, cc: const_count, lu: last_use@, p0: last_phys_0_read, fin: final_vreg }),
                num_temps <= u32::MAX,
                last_use@.len() == num_temps,
                death_next@.len() == num_temps,
                forall|q: int| 0 <= q < num_temps ==>
                    (#[trigger] last_use@[q] matches Some(l) ==> l < death_heads@.len()),
                forall|i: int| 0 <= i < death_heads@.len() ==>
                    #[trigger] death_heads@[i] == link(prev_dying(last_use@, i as usize, num_temps as int)),
                forall|q: int| 0 <= q < num_temps ==> #[trigger] death_next@[q] == (match last_use@[q] {
                    Some(l) => link(prev_dying(last_use@, l, q)),
                    None => u32::MAX,
                }),
                all_mappable(vinstrs@, param_count, num_temps as nat),
                param_count + const_count + n <= u32::MAX,
                pooled_total(vinstrs@, n as int) <= u32::MAX,
                temp_to_phys@ == alloc_upto(vinstrs@, idx as int, ctx).t2p,
                free_phys@ == alloc_upto(vinstrs@, idx as int, ctx).free,
                max_phys == alloc_upto(vinstrs@, idx as int, ctx).max_phys,
                instructions@ == alloc_upto(vinstrs@, idx as int, ctx).out,
                pool@ == alloc_upto(vinstrs@, idx as int, ctx).pool,
                temp_to_phys@.len() == num_temps,
                max_phys <= param_count + const_count + idx,
                pool@.len() == pooled_total(vinstrs@, idx as int),
            decreases n - idx,
        {
            let ghost st = alloc_upto(vinstrs@, idx as int, ctx);
            let instr = &vinstrs[idx];
            proof {
                lemma_pooled_total_mono(vinstrs@, idx + 1, n as int);
            }
            let dest_vreg = instr.dest();
            assert(vreg_mappable(vdest_of(vinstrs@[idx as int]), param_count, num_temps as nat));
            let is_final_prod = match final_vreg {
                Some(f) => f == dest_vreg,
                None => false,
            };
            let dest_phys = match dest_vreg {
                VReg::Param(p) => p,
                VReg::Const(c) => param_count + c,
                VReg::Temp(t) => {
                    let reg_0_free = match last_phys_0_read {
                        None => true,
                        Some(l) => l <= idx,
                    };
                    if is_final_prod && reg_0_free && param_count == 0 && const_count == 0 {
                        temp_to_phys.set(t as usize, 0);
                        0
                    } else {
                        let p = match free_phys.pop() {
                            Some(p) => p,
                            None => {
                                let p = max_phys;
                                max_phys = max_phys + 1;
                                p
                            },
                        };
                        temp_to_phys.set(t as usize, p);
                        if last_use[t as usize].is_none() {
                            free_phys.push(p);
                        }
                        p
                    }
                },
            };
            let ghost placed = place(st, vdest_of(vinstrs@[idx as int]), idx as int, ctx);
            assert(dest_phys == placed.0);
            assert(temp_to_phys@ == placed.1.t2p);
            assert(free_phys@ == placed.1.free);
            assert(max_phys == placed.1.max_phys);
            emit_instruction(instr, dest_phys, param_count, &temp_to_phys, &mut pool, &mut instructions);
            let ghost t2p = temp_to_phys@;
            let ghost free0 = free_phys@;
            let ghost target = deaths_below(last_use@, t2p, idx as int, num_temps as int);
            let mut curr = death_heads[idx];
            let ghost mut b: int = num_temps as int;
            while curr != u32::MAX
                invariant
                    0 <= b <= num_temps,
                    idx < death_heads@.len(),
                    num_temps <= u32::MAX,
                    last_use@.len() == num_temps,
                    death_next@.len() == num_temps,
                    t2p == temp_to_phys@,
                    t2p.len() == num_temps,
                    curr == link(prev_dying(last_use@, idx, b)),
                    forall|q: int| 0 <= q < num_temps ==> #[trigger] death_next@[q] == (match last_use@[q] {
                        Some(l) => link(prev_dying(last_use@, l, q)),
                        None => u32::MAX,
                    }),
                    free_phys@ + deaths_below(last_use@, t2p, idx as int, b) == free0 + target,
                decreases b,
            {
                proof {
                    lemma_deaths_skip(last_use@, t2p, idx, b);
                }
                let t_id = curr;
                let ghost c = t_id as int;
                let ghost before = free_phys@;
                let p = temp_to_phys[t_id as usize];
                if p != u32::MAX {
                    free_phys.push(p);
                    proof {
                        assert(before + deaths_below(last_use@, t2p, idx as int, c + 1)
                            =~= free_phys@ + deaths_below(last_use@, t2p, idx as int, c));
                    }
                }
                curr = death_next[t_id as usize];
                proof {
                    b = c;
                }
            }
            proof {
                lemma_deaths_skip(last_use@, t2p, idx, b);
                assert(free_phys@ =~= free0 + target);
                lemma_pooled_len(vinstrs@[idx as int], param_count, placed.1.t2p);
            }
            idx = idx + 1;
        }
        let result_phys = match final_vreg {
            Some(f_vreg) => match f_vreg {
                VReg::Param(p) => p,
                VReg::Const(c) => param_count + c,
                VReg::Temp(t) => temp_to_phys[t as usize],
            },
            None => param_count,
        };
        (instructions, pool, max_phys as usize, result_phys)
    }
}

/// The registers freed after instruction `k` among the temporaries below `b`
/// start at the largest of them whose last use is `k`.
pub proof fn lemma_deaths_skip(lu: Seq<Option<usize>>, t2p: Seq<u32>, k: usize, b: int)
    requires
        0 <= b <= lu.len(),
    ensures
        match prev_dying(lu, k, b) {
            Some(c) => 0 <= c < b && lu[c] == Some(k)
                && deaths_below(lu, t2p, k as int, b) == deaths_below(lu, t2p, k as int, c + 1),
            None => deaths_below(lu, t2p, k as int, b) == Seq::<u32>::empty(),
        },
    decreases b,
{
    if b > 0 && lu[b - 1] != Some(k) {
        lemma_deaths_skip(lu, t2p, k, b - 1);
    }
}

/// The registers appended to the pool are as many as `pooled_count` says.
pub proof fn lemma_pooled_len(i: VInstruction, pc: u32, t2p: Seq<u32>)
    ensures
        pooled_of(i, pc, t2p).len() == pooled_count(i),
{
}

/// `pooled_total` grows with the number of instructions.
pub proof fn lemma_pooled_total_mono(s: Seq<VInstruction>, j: int, k: int)
    requires
        j <= k,
    ensures
        pooled_total(s, j) <= pooled_total(s, k),
    decreases k - j,
{
    if j < k {
        lemma_pooled_total_mono(s, j, k - 1);
    }
}

/// A last read among the first `k` instructions has an index below `k`.
pub proof fn lemma_last_read_below(s: Seq<VInstruction>, r: VReg, k: int)
    ensures
        last_read(s, r, k) matches Some(i) ==> i < k,
    decreases k,
{
    if k > 0 {
        lemma_last_read_below(s, r, k - 1);
    }
}

} // verus!
