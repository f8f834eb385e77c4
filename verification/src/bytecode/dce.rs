//! Copy forwarding and dead-code elimination over physical registers.
//!
//! The pass works in four stages, each stated below as a function of the
//! input stream:
//! 1. a forwarding table maps every register to the register whose value it
//!    holds, following `Copy` instructions where that is safe;
//! 2. every read (pooled reads included) is rewritten through the table, and
//!    copies that became redundant are dropped;
//! 3. a backward liveness scan, seeded with the output register, marks the
//!    instructions whose results are needed;
//! 4. only the marked instructions are kept.

use vstd::prelude::*;
use super::instruction::{Instruction, reads_of, writes_of, pool_range_of, with_reads, regs_below};
use super::uses::{pool_ok, pools_ok, uses_of, uses, all_uses, count_in, clean_outside, calculate_use_count};

verus! {

// ---------------------------------------------------------------------------
// Specification
// ---------------------------------------------------------------------------

/// Every register that the stream names, pooled operands included, is below `n`.
pub open spec fn stream_regs_below(instrs: Seq<Instruction>, pool: Seq<u32>, n: int) -> bool {
    &&& pools_ok(instrs, pool)
    &&& forall|k: int| 0 <= k < instrs.len() ==> regs_below(#[trigger] instrs[k], n)
    &&& forall|k: int| 0 <= k < instrs.len() ==> uses_below(#[trigger] instrs[k], pool, n)
}

/// Every register the instruction uses, pooled operands included, is below `n`.
pub open spec fn uses_below(i: Instruction, pool: Seq<u32>, n: int) -> bool {
    forall|q: int| 0 <= q < uses_of(i, pool).len() ==> uses_of(i, pool)[q] < n
}

/// The identity table on registers `0..n`.
pub open spec fn identity_table(n: nat) -> Seq<u32> {
    Seq::new(n, |r: int| r as u32)
}

/// The index of the last instruction among the first `k` that uses `r`, or 0.
pub open spec fn last_use(instrs: Seq<Instruction>, pool: Seq<u32>, r: u32, k: int) -> int
    decreases k,
{
    if k <= 0 {
        0
    } else if uses_of(instrs[k - 1], pool).contains(r) {
        k - 1
    } else {
        last_use(instrs, pool, r, k - 1)
    }
}

/// The index of the first instruction at or after `j` that writes `r`, or `usize::MAX`.
pub open spec fn next_write(instrs: Seq<Instruction>, r: u32, j: int) -> int
    decreases instrs.len() - j,
{
    if j >= instrs.len() {
        usize::MAX as int
    } else if writes_of(instrs[j]).contains(r) {
        j
    } else {
        next_write(instrs, r, j + 1)
    }
}

/// One step of the forwarding table, at instruction `i`.
///
/// A `Copy { dest, src }` (not into the output register, not onto itself)
/// forwards `dest` to the root of `src` when that root is a parameter or a
/// constant (registers below `limit` are never redefined), and to `src`
/// itself when `src` is not forwarded and is not redefined before the last
/// use of `dest`.
pub open spec fn forward_step(
    t: Seq<u32>, instrs: Seq<Instruction>, pool: Seq<u32>, i: int, limit: int, output_reg: u32,
) -> Seq<u32> {
    match instrs[i] {
        Instruction::Copy { dest, src } => {
            if dest == output_reg || dest == src {
                t
            } else if src < limit {
                t.update(dest as int, t[src as int])
            } else {
                let root = t[src as int];
                if root < limit {
                    t.update(dest as int, root)
                } else if root == src
                    && next_write(instrs, src, i + 1) > last_use(instrs, pool, dest, instrs.len() as int) {
                    t.update(dest as int, src)
                } else {
                    t
                }
            }
        },
        _ => t,
    }
}

/// The forwarding table after the first `k` instructions.
pub open spec fn forward_table(
    instrs: Seq<Instruction>, pool: Seq<u32>, k: int, n: nat, limit: int, output_reg: u32,
) -> Seq<u32>
    decreases k,
{
    if k <= 0 {
        identity_table(n)
    } else {
        forward_step(forward_table(instrs, pool, k - 1, n, limit, output_reg), instrs, pool, k - 1, limit, output_reg)
    }
}

/// The pool with the entries of `[s, s + c)` rewritten through `t`.
pub open spec fn map_range(pool: Seq<u32>, s: int, c: int, t: Seq<u32>) -> Seq<u32> {
    Seq::new(pool.len(), |j: int| if s <= j < s + c { t[pool[j] as int] } else { pool[j] })
}

/// The pool after the slices of the first `k` instructions were rewritten, in order.
pub open spec fn rewrite_pool(pool: Seq<u32>, instrs: Seq<Instruction>, t: Seq<u32>, k: int) -> Seq<u32>
    decreases k,
{
    if k <= 0 {
        pool
    } else {
        let p = rewrite_pool(pool, instrs, t, k - 1);
        match pool_range_of(instrs[k - 1]) {
            Some((s, c)) => map_range(p, s as int, c as int, t),
            None => p,
        }
    }
}

/// A copy that is redundant once reads are forwarded: onto itself, or into a forwarded register.
pub open spec fn dropped_copy(i: Instruction, t: Seq<u32>) -> bool {
    match i {
        Instruction::Copy { dest, src } => dest == src || t[dest as int] != dest,
        _ => false,
    }
}

/// The first `k` instructions with reads rewritten and redundant copies dropped.
pub open spec fn forwarded_stream(instrs: Seq<Instruction>, t: Seq<u32>, k: int) -> Seq<Instruction>
    decreases k,
{
    if k <= 0 {
        Seq::empty()
    } else {
        let prev = forwarded_stream(instrs, t, k - 1);
        let ri = with_reads(instrs[k - 1], t);
        if dropped_copy(ri, t) { prev } else { prev.push(ri) }
    }
}

/// Whether some register that `i` writes is live in `l`.
pub open spec fn writes_live(l: Seq<bool>, i: Instruction) -> bool {
    exists|k: int| 0 <= k < writes_of(i).len() && l[writes_of(i)[k] as int]
}

/// One backward liveness step over `i`: if it is live, its writes die and its uses become live.
pub open spec fn live_step(l: Seq<bool>, i: Instruction, pool: Seq<u32>) -> Seq<bool> {
    if writes_live(l, i) {
        Seq::new(l.len(), |r: int|
            if uses_of(i, pool).contains(r as u32) { true }
            else if writes_of(i).contains(r as u32) { false }
            else { l[r] })
    } else {
        l
    }
}

/// Liveness after scanning instructions `k..` backwards from the end; only the output is live at the end.
pub open spec fn lives_from(s: Seq<Instruction>, pool: Seq<u32>, k: int, n: nat, output_reg: u32) -> Seq<bool>
    decreases s.len() - k,
{
    if k >= s.len() {
        Seq::new(n, |r: int| r == output_reg)
    } else {
        live_step(lives_from(s, pool, k + 1, n, output_reg), s[k], pool)
    }
}

/// Whether instruction `k` of `s` writes a register that is needed later.
pub open spec fn is_live(s: Seq<Instruction>, pool: Seq<u32>, k: int, n: nat, output_reg: u32) -> bool {
    writes_live(lives_from(s, pool, k + 1, n, output_reg), s[k])
}

/// The live instructions among the first `k` of `s`.
pub open spec fn live_stream(s: Seq<Instruction>, pool: Seq<u32>, t: Seq<u32>, k: int, n: nat, output_reg: u32) -> Seq<Instruction>
    decreases k,
{
    if k <= 0 {
        Seq::empty()
    } else {
        let prev = live_stream(s, pool, t, k - 1, n, output_reg);
        if is_live(s, pool, k - 1, n, output_reg) && !dropped_copy(s[k - 1], t) { prev.push(s[k - 1]) } else { prev }
    }
}

/// The forwarding table the pass computes for `instrs`.
pub open spec fn dce_table(instrs: Seq<Instruction>, pool: Seq<u32>, n: nat, limit: int, output_reg: u32) -> Seq<u32> {
    forward_table(instrs, pool, instrs.len() as int, n, limit, output_reg)
}

/// The argument pool after the pass.
pub open spec fn dce_pool(instrs: Seq<Instruction>, pool: Seq<u32>, n: nat, limit: int, output_reg: u32) -> Seq<u32> {
    rewrite_pool(pool, instrs, dce_table(instrs, pool, n, limit, output_reg), instrs.len() as int)
}

/// The instruction stream after the pass.
pub open spec fn dce_result(instrs: Seq<Instruction>, pool: Seq<u32>, n: nat, limit: int, output_reg: u32) -> Seq<Instruction> {
    let t = dce_table(instrs, pool, n, limit, output_reg);
    let mid = forwarded_stream(instrs, t, instrs.len() as int);
    live_stream(mid, dce_pool(instrs, pool, n, limit, output_reg), t, mid.len() as int, n, output_reg)
}


// ---------------------------------------------------------------------------
// Lemmas
// ---------------------------------------------------------------------------

/// Rewriting reads keeps the writes and the pool slice, and maps each read through the table.
pub proof fn lemma_with_reads_shape(i: Instruction, t: Seq<u32>)
    ensures
        writes_of(with_reads(i, t)) == writes_of(i),
        pool_range_of(with_reads(i, t)) == pool_range_of(i),
        reads_of(with_reads(i, t)).len() == reads_of(i).len(),
        forall|q: int| 0 <= q < reads_of(i).len() ==>
            #[trigger] reads_of(with_reads(i, t))[q] == t[reads_of(i)[q] as int],
{
}

/// A table whose entries all name registers below its length.
pub open spec fn closed_table(t: Seq<u32>) -> bool {
    forall|r: int| 0 <= r < t.len() ==> #[trigger] t[r] < t.len()
}

// ---------------------------------------------------------------------------
// Implementation
// ---------------------------------------------------------------------------

/// For every register, the index of the last instruction that uses it (0 if none).
fn compute_last_use(instrs: &Vec<Instruction>, pool: &Vec<u32>, n: usize, last: &mut Vec<usize>)
    requires
        stream_regs_below(instrs@, pool@, n as int),
        n <= u32::MAX + 1,
    ensures
        final(last)@.len() == n,
        forall|r: int| 0 <= r < n ==> #[trigger] final(last)@[r] == last_use(instrs@, pool@, r as u32, instrs@.len() as int),
{
    last.clear();
    let mut r: usize = 0;
    while r < n
        invariant
            r <= n,
            last@.len() == r,
            forall|q: int| 0 <= q < r ==> last@[q] == 0,
        decreases n - r,
    {
        last.push(0);
        r = r + 1;
    }
    let mut i: usize = 0;
    while i < instrs.len()
        invariant
            i <= instrs@.len(),
            last@.len() == n,
            n <= u32::MAX + 1,
            stream_regs_below(instrs@, pool@, n as int),
            forall|q: int| 0 <= q < n ==> #[trigger] last@[q] == last_use(instrs@, pool@, q as u32, i as int),
        decreases instrs.len() - i,
    {
        assert(pool_ok(instrs@[i as int], pool@));
        let u = uses(&instrs[i], pool);
        assert(uses_below(instrs@[i as int], pool@, n as int));
        let mut j: usize = 0;
        while j < u.len()
            invariant
                j <= u@.len(),
                u@ == uses_of(instrs@[i as int], pool@),
                uses_below(instrs@[i as int], pool@, n as int),
                last@.len() == n,
                n <= u32::MAX + 1,
                forall|q: int| 0 <= q < n ==> #[trigger] last@[q] ==
                    (if u@.subrange(0, j as int).contains(q as u32) { i as int } else { last_use(instrs@, pool@, q as u32, i as int) }),
            decreases u.len() - j,
        {
            let reg = u[j];
            last.set(reg as usize, i);
            proof {
                assert forall|q: int| 0 <= q < n implies #[trigger] last@[q] ==
                    (if u@.subrange(0, j + 1).contains(q as u32) { i as int } else { last_use(instrs@, pool@, q as u32, i as int) }) by {
                    if u@.subrange(0, j as int).contains(q as u32) {
                        let w = choose|w: int| 0 <= w < j && #[trigger] u@.subrange(0, j as int)[w] == q as u32;
                        assert(u@.subrange(0, j + 1)[w] == q as u32);
                    }
                    if q == reg as int {
                        assert(u@.subrange(0, j + 1)[j as int] == q as u32);
                    } else if u@.subrange(0, j + 1).contains(q as u32) {
                        let w = choose|w: int| 0 <= w < j + 1 && #[trigger] u@.subrange(0, j + 1)[w] == q as u32;
                        assert(w != j);
                        assert(u@.subrange(0, j as int)[w] == q as u32);
                    }
                }
            }
            j = j + 1;
        }
        assert(u@.subrange(0, u@.len() as int) =~= u@);
        i = i + 1;
    }
}

/// For every `Copy` at index `k`, the index of the next instruction after `k`
/// that writes its source (`usize::MAX` if none); other entries are `usize::MAX`.
fn compute_src_next_write(instrs: &Vec<Instruction>, n: usize, next_def: &mut Vec<usize>, src_next: &mut Vec<usize>)
    requires
        forall|k: int| 0 <= k < instrs@.len() ==> regs_below(#[trigger] instrs@[k], n as int),
        n <= u32::MAX + 1,
    ensures
        final(src_next)@.len() == instrs@.len(),
        forall|k: int| 0 <= k < instrs@.len() ==> (#[trigger] instrs@[k] matches Instruction::Copy { src, .. }
            ==> final(src_next)@[k] == next_write(instrs@, src, k + 1)),
{
    next_def.clear();
    let mut r: usize = 0;
    while r < n
        invariant
            r <= n,
            next_def@.len() == r,
            forall|q: int| 0 <= q < r ==> next_def@[q] == usize::MAX,
        decreases n - r,
    {
        next_def.push(usize::MAX);
        r = r + 1;
    }
    src_next.clear();
    let len = instrs.len();
    let mut k: usize = 0;
    while k < len
        invariant
            k <= len,
            len == instrs@.len(),
            src_next@.len() == k,
        decreases len - k,
    {
        src_next.push(usize::MAX);
        k = k + 1;
    }
    let mut i: usize = len;
    while i > 0
        invariant
            i <= len,
            len == instrs@.len(),
            n <= u32::MAX + 1,
            next_def@.len() == n,
            src_next@.len() == len,
            forall|k: int| 0 <= k < instrs@.len() ==> regs_below(#[trigger] instrs@[k], n as int),
            forall|q: int| 0 <= q < n ==> #[trigger] next_def@[q] == next_write(instrs@, q as u32, i as int),
            forall|k: int| i <= k < len ==> (#[trigger] instrs@[k] matches Instruction::Copy { src, .. }
                ==> src_next@[k] == next_write(instrs@, src, k + 1)),
        decreases i,
    {
        let idx = i - 1;
        let ins = instrs[idx];
        assert(regs_below(instrs@[idx as int], n as int));
        if let Instruction::Copy { src, .. } = ins {
            assert(reads_of(ins)[0] == src);
            src_next.set(idx, next_def[src as usize]);
        }
        let w = ins.writes();
        let mut j: usize = 0;
        while j < w.len()
            invariant
                j <= w@.len(),
                w@ == writes_of(instrs@[idx as int]),
                regs_below(instrs@[idx as int], n as int),
                next_def@.len() == n,
                n <= u32::MAX + 1,
                forall|q: int| 0 <= q < n ==> #[trigger] next_def@[q] ==
                    (if w@.subrange(0, j as int).contains(q as u32) { idx as int } else { next_write(instrs@, q as u32, i as int) }),
            decreases w.len() - j,
        {
            let reg = w[j];
            next_def.set(reg as usize, idx);
            proof {
                assert forall|q: int| 0 <= q < n implies #[trigger] next_def@[q] ==
                    (if w@.subrange(0, j + 1).contains(q as u32) { idx as int } else { next_write(instrs@, q as u32, i as int) }) by {
                    if w@.subrange(0, j as int).contains(q as u32) {
                        let z = choose|z: int| 0 <= z < j && #[trigger] w@.subrange(0, j as int)[z] == q as u32;
                        assert(w@.subrange(0, j + 1)[z] == q as u32);
                    }
                    if q == reg as int {
                        assert(w@.subrange(0, j + 1)[j as int] == q as u32);
                    } else if w@.subrange(0, j + 1).contains(q as u32) {
                        let z = choose|z: int| 0 <= z < j + 1 && #[trigger] w@.subrange(0, j + 1)[z] == q as u32;
                        assert(z != j);
                        assert(w@.subrange(0, j as int)[z] == q as u32);
                    }
                }
            }
            j = j + 1;
        }
        assert(w@.subrange(0, w@.len() as int) =~= w@);
        i = idx;
    }
}

/// The forwarding table of the whole stream.
fn compute_forward_table(
    instrs: &Vec<Instruction>,
    pool: &Vec<u32>,
    n: usize,
    limit: u32,
    output_reg: u32,
    last: &Vec<usize>,
    src_next: &Vec<usize>,
    copy_of: &mut Vec<u32>,
)
    requires
        stream_regs_below(instrs@, pool@, n as int),
        n <= u32::MAX + 1,
        last@.len() == n,
        forall|r: int| 0 <= r < n ==> #[trigger] last@[r] == last_use(instrs@, pool@, r as u32, instrs@.len() as int),
        src_next@.len() == instrs@.len(),
        forall|k: int| 0 <= k < instrs@.len() ==> (#[trigger] instrs@[k] matches Instruction::Copy { src, .. }
            ==> src_next@[k] == next_write(instrs@, src, k + 1)),
    ensures
        final(copy_of)@ == forward_table(instrs@, pool@, instrs@.len() as int, n as nat, limit as int, output_reg),
        final(copy_of)@.len() == n,
        closed_table(final(copy_of)@),
{
    copy_of.clear();
    let mut r: usize = 0;
    while r < n
        invariant
            r <= n,
            n <= u32::MAX + 1,
            copy_of@ =~= identity_table(r as nat),
        decreases n - r,
    {
        copy_of.push(r as u32);
        r = r + 1;
    }
    let mut i: usize = 0;
    while i < instrs.len()
        invariant
            i <= instrs@.len(),
            n <= u32::MAX + 1,
            stream_regs_below(instrs@, pool@, n as int),
            last@.len() == n,
            forall|r: int| 0 <= r < n ==> #[trigger] last@[r] == last_use(instrs@, pool@, r as u32, instrs@.len() as int),
            src_next@.len() == instrs@.len(),
            forall|k: int| 0 <= k < instrs@.len() ==> (#[trigger] instrs@[k] matches Instruction::Copy { src, .. }
                ==> src_next@[k] == next_write(instrs@, src, k + 1)),
            copy_of@ == forward_table(instrs@, pool@, i as int, n as nat, limit as int, output_reg),
            copy_of@.len() == n,
            closed_table(copy_of@),
        decreases instrs.len() - i,
    {
        let ins = instrs[i];
        assert(regs_below(instrs@[i as int], n as int));
        if let Instruction::Copy { dest, src } = ins {
            assert(reads_of(ins)[0] == src);
            assert(writes_of(ins)[0] == dest);
            if dest == output_reg || dest == src {
            } else if src < limit {
                let v = copy_of[src as usize];
                copy_of.set(dest as usize, v);
            } else {
                let root = copy_of[src as usize];
                if root < limit {
                    copy_of.set(dest as usize, root);
                } else if root == src && src_next[i] > last[dest as usize] {
                    copy_of.set(dest as usize, src);
                }
            }
        }
        i = i + 1;
    }
}

/// Rewrite every read, pooled reads included, through `t` and drop the copies
/// that became redundant.
fn forward_reads(instrs: &Vec<Instruction>, pool: &mut Vec<u32>, t: &Vec<u32>) -> (r: Vec<Instruction>)
    requires
        stream_regs_below(instrs@, old(pool)@, t@.len() as int),
        closed_table(t@),
    ensures
        r@ == forwarded_stream(instrs@, t@, instrs@.len() as int),
        final(pool)@ == rewrite_pool(old(pool)@, instrs@, t@, instrs@.len() as int),
        stream_regs_below(r@, final(pool)@, t@.len() as int),
{
    let mut out: Vec<Instruction> = Vec::new();
    let mut i: usize = 0;
    let ghost p0 = pool@;
    let ghost n = t@.len() as int;
    while i < instrs.len()
        invariant
            i <= instrs@.len(),
            closed_table(t@),
            n == t@.len(),
            pool@.len() == p0.len(),
            stream_regs_below(instrs@, p0, n),
            stream_regs_below(instrs@, pool@, n),
            pool@ == rewrite_pool(p0, instrs@, t@, i as int),
            out@ == forwarded_stream(instrs@, t@, i as int),
            stream_regs_below(out@, pool@, n),
        decreases instrs.len() - i,
    {
        let ins = instrs[i];
        assert(regs_below(ins, n));
        assert(pool_ok(ins, pool@));
        assert(uses_below(ins, pool@, n));
        proof {
            assert forall|k: int| 0 <= k < reads_of(ins).len() implies reads_of(ins)[k] < t@.len() by {
                assert(uses_of(ins, pool@)[k] == reads_of(ins)[k]);
            }
        }
        let ri = ins.map_reads(t);
        proof { lemma_with_reads_shape(ins, t@); }
        let ghost p_before = pool@;
        match ins.arg_pool_range() {
            Some((s32, c32)) => {
                let st: usize = s32 as usize;
                let c: usize = c32 as usize;
                assert(st + c <= pool.len());
                let mut k: usize = 0;
                while k < c
                    invariant
                        k <= c,
                        st + c <= pool.len(),
                        pool@.len() == p_before.len(),
                        closed_table(t@),
                        n == t@.len(),
                        uses_below(ins, p_before, n),
                        pool_range_of(ins) == Some((s32, c32)),
                        st == s32, c == c32,
                        forall|j: int| 0 <= j < pool@.len() ==> #[trigger] pool@[j] ==
                            (if st <= j < st + k { t@[p_before[j] as int] } else { p_before[j] }),
                    decreases c - k,
                {
                    let idx: usize = st + k;
                    let old_v = pool[idx];
                    proof {
                        assert(uses_of(ins, p_before)[reads_of(ins).len() + k] == p_before[idx as int]);
                    }
                    let v = t[old_v as usize];
                    pool.set(idx, v);
                    k = k + 1;
                }
                assert(pool@ =~= map_range(p_before, st as int, c as int, t@));
            },
            None => {},
        }
        proof {
            // every instruction's uses stay below n after the rewrite
            assert forall|k: int| 0 <= k < instrs@.len() implies uses_below(#[trigger] instrs@[k], pool@, n) by {
                assert(uses_below(instrs@[k], p_before, n));
                assert forall|q: int| 0 <= q < uses_of(instrs@[k], pool@).len() implies uses_of(instrs@[k], pool@)[q] < n by {
                    let rl = reads_of(instrs@[k]).len();
                    if q >= rl {
                        let (s2, c2) = pool_range_of(instrs@[k])->0;
                        let j = s2 + (q - rl);
                        assert(uses_of(instrs@[k], p_before)[q] == p_before[j]);
                        assert(uses_of(instrs@[k], pool@)[q] == pool@[j]);
                    } else {
                        assert(uses_of(instrs@[k], pool@)[q] == uses_of(instrs@[k], p_before)[q]);
                    }
                }
            }
            assert forall|k: int| 0 <= k < out@.len() implies uses_below(#[trigger] out@[k], pool@, n) by {
                assert(uses_below(out@[k], p_before, n));
                assert forall|q: int| 0 <= q < uses_of(out@[k], pool@).len() implies uses_of(out@[k], pool@)[q] < n by {
                    let rl = reads_of(out@[k]).len();
                    if q >= rl {
                        let (s2, c2) = pool_range_of(out@[k])->0;
                        let j = s2 + (q - rl);
                        assert(uses_of(out@[k], p_before)[q] == p_before[j]);
                        assert(uses_of(out@[k], pool@)[q] == pool@[j]);
                    } else {
                        assert(uses_of(out@[k], pool@)[q] == uses_of(out@[k], p_before)[q]);
                    }
                }
            }
        }
        let drop = match ri {
            Instruction::Copy { dest, src } => {
                assert(writes_of(ri)[0] == dest);
                assert(writes_of(ins)[0] == dest);
                dest == src || t[dest as usize] != dest
            },
            _ => false,
        };
        if !drop {
            proof {
                assert(regs_below(ri, n));
                assert(pool_ok(ri, pool@));
                assert forall|q: int| 0 <= q < uses_of(ri, pool@).len() implies uses_of(ri, pool@)[q] < n by {
                    let rl = reads_of(ri).len();
                    if q >= rl {
                        assert(uses_of(ri, pool@)[q] == uses_of(ins, pool@)[q]);
                    } else {
                        assert(uses_of(ri, pool@)[q] == reads_of(ri)[q]);
                    }
                }
            }
            out.push(ri);
        }
        i = i + 1;
    }
    out
}

/// For every instruction of `s`, whether it writes a register needed later.
fn compute_live_flags(s: &Vec<Instruction>, pool: &Vec<u32>, n: usize, output_reg: u32, lives: &mut Vec<bool>) -> (flags: Vec<bool>)
    requires
        stream_regs_below(s@, pool@, n as int),
        (output_reg as int) < n,
        n <= u32::MAX + 1,
    ensures
        flags@.len() == s@.len(),
        forall|k: int| 0 <= k < s@.len() ==> #[trigger] flags@[k] == is_live(s@, pool@, k, n as nat, output_reg),
{
    lives.clear();
    let mut r: usize = 0;
    while r < n
        invariant
            r <= n,
            n <= u32::MAX + 1,
            lives@ =~= Seq::new(r as nat, |q: int| q == output_reg),
        decreases n - r,
    {
        lives.push(r as u32 == output_reg);
        r = r + 1;
    }
    let len = s.len();
    let mut flags: Vec<bool> = Vec::new();
    let mut k: usize = 0;
    while k < len
        invariant
            k <= len,
            len == s@.len(),
            flags@.len() == k,
            forall|q: int| 0 <= q < k ==> !#[trigger] flags@[q],
        decreases len - k,
    {
        flags.push(false);
        k = k + 1;
    }
    let mut i: usize = len;
    while i > 0
        invariant
            i <= len,
            len == s@.len(),
            n <= u32::MAX + 1,
            stream_regs_below(s@, pool@, n as int),
            flags@.len() == len,
            lives@ == lives_from(s@, pool@, i as int, n as nat, output_reg),
            lives@.len() == n,
            forall|k: int| i <= k < len ==> #[trigger] flags@[k] == is_live(s@, pool@, k, n as nat, output_reg),
            forall|k: int| 0 <= k < i ==> !#[trigger] flags@[k],
        decreases i,
    {
        let idx = i - 1;
        let ins = s[idx];
        assert(regs_below(ins, n as int));
        assert(pool_ok(ins, pool@));
        assert(uses_below(ins, pool@, n as int));
        let ghost l0 = lives@;
        let w = ins.writes();
        let mut live = false;
        let mut j: usize = 0;
        while j < w.len()
            invariant
                j <= w@.len(),
                w@ == writes_of(ins),
                regs_below(ins, n as int),
                lives@ == l0,
                l0.len() == n,
                live == exists|q: int| 0 <= q < j && l0[w@[q] as int],
            decreases w.len() - j,
        {
            if lives[w[j] as usize] {
                live = true;
            }
            j = j + 1;
        }
        assert(live == writes_live(l0, ins));
        assert(is_live(s@, pool@, idx as int, n as nat, output_reg) == live);
        if live {
            let mut j: usize = 0;
            while j < w.len()
                invariant
                    j <= w@.len(),
                    w@ == writes_of(ins),
                    regs_below(ins, n as int),
                    lives@.len() == n,
                    forall|q: int| 0 <= q < n ==> #[trigger] lives@[q] ==
                        (if w@.subrange(0, j as int).contains(q as u32) { false } else { l0[q] }),
                    n <= u32::MAX + 1,
                decreases w.len() - j,
            {
                let reg = w[j];
                lives.set(reg as usize, false);
                proof {
                    assert forall|q: int| 0 <= q < n implies #[trigger] lives@[q] ==
                        (if w@.subrange(0, j + 1).contains(q as u32) { false } else { l0[q] }) by {
                        if w@.subrange(0, j as int).contains(q as u32) {
                            let z = choose|z: int| 0 <= z < j && #[trigger] w@.subrange(0, j as int)[z] == q as u32;
                            assert(w@.subrange(0, j + 1)[z] == q as u32);
                        }
                        if q == reg as int {
                            assert(w@.subrange(0, j + 1)[j as int] == q as u32);
                        } else if w@.subrange(0, j + 1).contains(q as u32) {
                            let z = choose|z: int| 0 <= z < j + 1 && #[trigger] w@.subrange(0, j + 1)[z] == q as u32;
                            assert(z != j);
                            assert(w@.subrange(0, j as int)[z] == q as u32);
                        }
                    }
                }
                j = j + 1;
            }
            assert(w@.subrange(0, w@.len() as int) =~= w@);
            let ghost l1 = lives@;
            let u = uses(&ins, pool);
            let mut j: usize = 0;
            while j < u.len()
                invariant
                    j <= u@.len(),
                    u@ == uses_of(ins, pool@),
                    uses_below(ins, pool@, n as int),
                    lives@.len() == n,
                    forall|q: int| 0 <= q < n ==> #[trigger] lives@[q] ==
                        (if u@.subrange(0, j as int).contains(q as u32) { true } else { l1[q] }),
                    n <= u32::MAX + 1,
                decreases u.len() - j,
            {
                let reg = u[j];
                lives.set(reg as usize, true);
                proof {
                    assert forall|q: int| 0 <= q < n implies #[trigger] lives@[q] ==
                        (if u@.subrange(0, j + 1).contains(q as u32) { true } else { l1[q] }) by {
                        if u@.subrange(0, j as int).contains(q as u32) {
                            let z = choose|z: int| 0 <= z < j && #[trigger] u@.subrange(0, j as int)[z] == q as u32;
                            assert(u@.subrange(0, j + 1)[z] == q as u32);
                        }
                        if q == reg as int {
                            assert(u@.subrange(0, j + 1)[j as int] == q as u32);
                        } else if u@.subrange(0, j + 1).contains(q as u32) {
                            let z = choose|z: int| 0 <= z < j + 1 && #[trigger] u@.subrange(0, j + 1)[z] == q as u32;
                            assert(z != j);
                            assert(u@.subrange(0, j as int)[z] == q as u32);
                        }
                    }
                }
                j = j + 1;
            }
            assert(u@.subrange(0, u@.len() as int) =~= u@);
            assert(lives@ =~= live_step(l0, ins, pool@));
            flags.set(idx, true);
        } else {
            assert(lives@ =~= live_step(l0, ins, pool@));
        }
        i = idx;
    }
    flags
}

/// Scratch buffers reused across runs of the pass.
pub struct DceScratch {
    pub copy_of: Vec<u32>,
    pub next_def: Vec<usize>,
    pub src_next_def_at_idx: Vec<usize>,
    pub last_use: Vec<usize>,
    pub lives: Vec<bool>,
    pub dirty_uses: Vec<u32>,
}

impl DceScratch {
    /// Empty buffers.
    pub fn new() -> (r: Self)
        ensures
            r.copy_of@.len() == 0,
            r.next_def@.len() == 0,
            r.src_next_def_at_idx@.len() == 0,
            r.last_use@.len() == 0,
            r.lives@.len() == 0,
            r.dirty_uses@.len() == 0,
    {
        DceScratch {
            copy_of: Vec::new(),
            next_def: Vec::new(),
            src_next_def_at_idx: Vec::new(),
            last_use: Vec::new(),
            lives: Vec::new(),
            dirty_uses: Vec::new(),
        }
    }
}

/// Copy forwarding followed by dead-code elimination.
///
/// Registers below `param_count + const_count` hold parameters and constants
/// and are never redefined; `output_reg` holds the result. `use_count` is
/// recounted for the input stream (as `calculate_use_count` states), the
/// pooled operands are rewritten through the forwarding table, and the
/// returned stream is `dce_result` of the input.
pub fn eliminate_dead_code(
    out: Vec<Instruction>,
    arg_pool: &mut Vec<u32>,
    use_count: &mut Vec<usize>,
    param_count: usize,
    const_count: usize,
    max_reg_idx: u32,
    output_reg: u32,
    scratch: &mut DceScratch,
) -> (r: Vec<Instruction>)
    requires
        max_reg_idx < u32::MAX,
        output_reg <= max_reg_idx,
        param_count + const_count <= u32::MAX,
        stream_regs_below(out@, old(arg_pool)@, max_reg_idx + 1),
        clean_outside(old(use_count)@, old(scratch).dirty_uses@),
        old(use_count)@.len() <= u32::MAX,
        all_uses(out@, old(arg_pool)@, out@.len() as int).len() < usize::MAX,
    ensures
        r@ == dce_result(out@, old(arg_pool)@, (max_reg_idx + 1) as nat, param_count + const_count, output_reg),
        final(arg_pool)@ == dce_pool(out@, old(arg_pool)@, (max_reg_idx + 1) as nat, param_count + const_count, output_reg),
        final(use_count)@.len() == old(use_count)@.len(),
        forall|q: int| 0 <= q < final(use_count)@.len() ==>
            #[trigger] final(use_count)@[q] == count_in(all_uses(out@, old(arg_pool)@, out@.len() as int), q as u32),
        clean_outside(final(use_count)@, final(scratch).dirty_uses@),
{
    let n: usize = (max_reg_idx + 1) as usize;
    calculate_use_count(&out, use_count, &mut scratch.dirty_uses, arg_pool);
    let limit: u32 = (param_count + const_count) as u32;
    compute_last_use(&out, arg_pool, n, &mut scratch.last_use);
    compute_src_next_write(&out, n, &mut scratch.next_def, &mut scratch.src_next_def_at_idx);
    compute_forward_table(&out, arg_pool, n, limit, output_reg, &scratch.last_use,
        &scratch.src_next_def_at_idx, &mut scratch.copy_of);
    let ghost p0 = arg_pool@;
    let mid = forward_reads(&out, arg_pool, &scratch.copy_of);
    let flags = compute_live_flags(&mid, arg_pool, n, output_reg, &mut scratch.lives);
    let mut result: Vec<Instruction> = Vec::new();
    let mut k: usize = 0;
    while k < mid.len()
        invariant
            k <= mid@.len(),
            flags@.len() == mid@.len(),
            forall|q: int| 0 <= q < mid@.len() ==> #[trigger] flags@[q] == is_live(mid@, arg_pool@, q, n as nat, output_reg),
            scratch.copy_of@.len() == n,
            stream_regs_below(mid@, arg_pool@, n as int),
            result@ == live_stream(mid@, arg_pool@, scratch.copy_of@, k as int, n as nat, output_reg),
        decreases mid.len() - k,
    {
        let ins = mid[k];
        assert(regs_below(ins, n as int));
        let dead_copy = match ins {
            Instruction::Copy { dest, src } => {
                assert(writes_of(ins)[0] == dest);
                dest == src || scratch.copy_of[dest as usize] != dest
            },
            _ => false,
        };
        if flags[k] && !dead_copy {
            result.push(ins);
        }
        k = k + 1;
    }
    result
}

// ---------------------------------------------------------------------------
// Laws
// ---------------------------------------------------------------------------

/// Forwarding never adds instructions.
pub proof fn lemma_forwarded_stream_len(instrs: Seq<Instruction>, t: Seq<u32>, k: int)
    requires
        0 <= k,
    ensures
        forwarded_stream(instrs, t, k).len() <= k,
    decreases k,
{
    if k > 0 {
        lemma_forwarded_stream_len(instrs, t, k - 1);
    }
}

/// Liveness filtering never adds instructions.
pub proof fn lemma_live_stream_len(s: Seq<Instruction>, pool: Seq<u32>, t: Seq<u32>, k: int, n: nat, output_reg: u32)
    requires
        0 <= k,
    ensures
        live_stream(s, pool, t, k, n, output_reg).len() <= k,
    decreases k,
{
    if k > 0 {
        lemma_live_stream_len(s, pool, t, k - 1, n, output_reg);
    }
}

/// The pass never makes a stream longer.
pub proof fn law_dce_never_grows(instrs: Seq<Instruction>, pool: Seq<u32>, n: nat, limit: int, output_reg: u32)
    ensures
        dce_result(instrs, pool, n, limit, output_reg).len() <= instrs.len(),
{
    let t = dce_table(instrs, pool, n, limit, output_reg);
    let mid = forwarded_stream(instrs, t, instrs.len() as int);
    lemma_forwarded_stream_len(instrs, t, instrs.len() as int);
    lemma_live_stream_len(mid, dce_pool(instrs, pool, n, limit, output_reg), t, mid.len() as int, n, output_reg);
}

/// The output register stays live while scanning back over instructions that do not write it.
pub proof fn lemma_output_live_after(s: Seq<Instruction>, pool: Seq<u32>, k: int, n: nat, output_reg: u32)
    requires
        0 <= k <= s.len(),
        output_reg < n,
        forall|j: int| k <= j < s.len() ==> !writes_of(#[trigger] s[j]).contains(output_reg),
    ensures
        lives_from(s, pool, k, n, output_reg).len() == n,
        lives_from(s, pool, k, n, output_reg)[output_reg as int],
    decreases s.len() - k,
{
    if k < s.len() {
        lemma_output_live_after(s, pool, k + 1, n, output_reg);
    }
}

/// The last instruction that writes the output register is live: the pass
/// never drops the computation of the result.
pub proof fn law_last_output_writer_is_live(s: Seq<Instruction>, pool: Seq<u32>, k: int, n: nat, output_reg: u32)
    requires
        0 <= k < s.len(),
        output_reg < n,
        writes_of(s[k]).contains(output_reg),
        forall|j: int| k < j < s.len() ==> !writes_of(#[trigger] s[j]).contains(output_reg),
    ensures
        is_live(s, pool, k, n, output_reg),
{
    lemma_output_live_after(s, pool, k + 1, n, output_reg);
    let w = writes_of(s[k]);
    let q = choose|q: int| 0 <= q < w.len() && w[q] == output_reg;
    assert(lives_from(s, pool, k + 1, n, output_reg)[w[q] as int]);
}

} // verus!
