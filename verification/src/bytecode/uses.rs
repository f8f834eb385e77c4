//! Register uses of an instruction stream, pooled operands included.

use vstd::prelude::*;
use super::instruction::{Instruction, reads_of, pool_range_of};

verus! {

/// The pool slice of an N-ary instruction lies inside the pool.
pub open spec fn pool_ok(i: Instruction, pool: Seq<u32>) -> bool {
    match pool_range_of(i) {
        Some((s, c)) => s + c <= pool.len(),
        None => true,
    }
}

/// Every instruction's pool slice lies inside the pool.
pub open spec fn pools_ok(instrs: Seq<Instruction>, pool: Seq<u32>) -> bool {
    forall|k: int| 0 <= k < instrs.len() ==> pool_ok(#[trigger] instrs[k], pool)
}

/// The registers an instruction reads through the argument pool.
pub open spec fn pooled_reads_of(i: Instruction, pool: Seq<u32>) -> Seq<u32> {
    match pool_range_of(i) {
        Some((s, c)) => pool.subrange(s as int, s + c),
        None => Seq::empty(),
    }
}

/// Every register an instruction reads, directly or through the pool.
pub open spec fn uses_of(i: Instruction, pool: Seq<u32>) -> Seq<u32> {
    reads_of(i) + pooled_reads_of(i, pool)
}

/// The uses of the first `k` instructions, in order.
pub open spec fn all_uses(instrs: Seq<Instruction>, pool: Seq<u32>, k: int) -> Seq<u32>
    decreases k,
{
    if k <= 0 {
        Seq::empty()
    } else {
        all_uses(instrs, pool, k - 1) + uses_of(instrs[k - 1], pool)
    }
}

/// How many times `r` occurs in `s`.
pub open spec fn count_in(s: Seq<u32>, r: u32) -> nat
    decreases s.len(),
{
    if s.len() == 0 {
        0
    } else {
        count_in(s.drop_last(), r) + (if s.last() == r { 1nat } else { 0nat })
    }
}

pub proof fn lemma_count_in_concat(a: Seq<u32>, b: Seq<u32>, r: u32)
    ensures
        count_in(a + b, r) == count_in(a, r) + count_in(b, r),
    decreases b.len(),
{
    if b.len() == 0 {
        assert(a + b =~= a);
    } else {
        lemma_count_in_concat(a, b.drop_last(), r);
        assert((a + b).drop_last() =~= a + b.drop_last());
    }
}

pub proof fn lemma_count_in_push(s: Seq<u32>, x: u32, r: u32)
    ensures
        count_in(s.push(x), r) == count_in(s, r) + (if x == r { 1nat } else { 0nat }),
{
    assert(s.push(x).drop_last() =~= s);
}

pub proof fn lemma_count_in_le_len(s: Seq<u32>, r: u32)
    ensures
        count_in(s, r) <= s.len(),
    decreases s.len(),
{
    if s.len() > 0 {
        lemma_count_in_le_len(s.drop_last(), r);
    }
}

pub proof fn lemma_count_in_pos(s: Seq<u32>, r: u32)
    ensures
        count_in(s, r) > 0 <==> s.contains(r),
    decreases s.len(),
{
    if s.len() > 0 {
        lemma_count_in_pos(s.drop_last(), r);
        if s.drop_last().contains(r) {
            let j = choose|j: int| 0 <= j < s.drop_last().len() && s.drop_last()[j] == r;
            assert(s[j] == r);
        }
        if s.contains(r) && s.last() != r {
            let j = choose|j: int| 0 <= j < s.len() && s[j] == r;
            assert(s.drop_last()[j] == r);
        }
    }
}

pub proof fn lemma_all_uses_len_mono(instrs: Seq<Instruction>, pool: Seq<u32>, j: int, k: int)
    requires
        j <= k,
    ensures
        all_uses(instrs, pool, j).len() <= all_uses(instrs, pool, k).len(),
    decreases k - j,
{
    if j < k {
        lemma_all_uses_len_mono(instrs, pool, j, k - 1);
    }
}

/// The pooled registers an instruction reads.
pub fn pooled_reads(i: &Instruction, pool: &Vec<u32>) -> (r: Vec<u32>)
    requires
        pool_ok(*i, pool@),
    ensures
        r@ == pooled_reads_of(*i, pool@),
{
    let mut out: Vec<u32> = Vec::new();
    match i.arg_pool_range() {
        Some((s32, c32)) => {
            let mut k: usize = 0;
            let st: usize = s32 as usize;
            let c: usize = c32 as usize;
            assert(st + c <= pool@.len());
            while k < c
                invariant
                    k <= c,
                    st + c <= pool.len(),
                    out@ =~= pool@.subrange(st as int, st + k),
                decreases c - k,
            {
                let idx: usize = st + k;
                out.push(pool[idx]);
                k = k + 1;
            }
            out
        },
        None => out,
    }
}

/// Every register an instruction reads, directly or through the pool.
pub fn uses(i: &Instruction, pool: &Vec<u32>) -> (r: Vec<u32>)
    requires
        pool_ok(*i, pool@),
    ensures
        r@ == uses_of(*i, pool@),
{
    let mut r = i.reads();
    let p = pooled_reads(i, pool);
    let mut k: usize = 0;
    let ghost r0 = r@;
    while k < p.len()
        invariant
            k <= p.len(),
            r@ =~= r0 + p@.subrange(0, k as int),
        decreases p.len() - k,
    {
        r.push(p[k]);
        k = k + 1;
    }
    assert(p@.subrange(0, p@.len() as int) =~= p@);
    r
}

/// Use counts are zero outside the registers listed in `dirty`.
pub open spec fn clean_outside(use_count: Seq<usize>, dirty: Seq<u32>) -> bool {
    &&& forall|r: int| 0 <= r < use_count.len() && !dirty.contains(r as u32) ==> use_count[r] == 0
    &&& forall|k: int| 0 <= k < dirty.len() ==> dirty[k] < use_count.len()
}

/// Recount, for every register below `use_count.len()`, how many times the
/// stream reads it. Only the counters listed in `dirty_uses` are reset first;
/// afterwards `dirty_uses` lists every counter that is not zero.
pub fn calculate_use_count(
    instrs: &Vec<Instruction>,
    use_count: &mut Vec<usize>,
    dirty_uses: &mut Vec<u32>,
    arg_pool: &Vec<u32>,
)
    requires
        clean_outside(old(use_count)@, old(dirty_uses)@),
        old(use_count)@.len() <= u32::MAX,
        pools_ok(instrs@, arg_pool@),
        all_uses(instrs@, arg_pool@, instrs@.len() as int).len() < usize::MAX,
    ensures
        final(use_count)@.len() == old(use_count)@.len(),
        forall|r: int| 0 <= r < final(use_count)@.len() ==>
            final(use_count)@[r] == count_in(all_uses(instrs@, arg_pool@, instrs@.len() as int), r as u32),
        clean_outside(final(use_count)@, final(dirty_uses)@),
{
    let mut k: usize = 0;
    assert(dirty_uses@.subrange(0, dirty_uses@.len() as int) =~= dirty_uses@);
    while k < dirty_uses.len()
        invariant
            k <= dirty_uses.len(),
            use_count@.len() <= u32::MAX,
            use_count@.len() == old(use_count)@.len(),
            dirty_uses@ == old(dirty_uses)@,
            clean_outside(old(use_count)@, old(dirty_uses)@),
            forall|r: int| 0 <= r < use_count@.len() && !dirty_uses@.subrange(k as int, dirty_uses@.len() as int).contains(r as u32)
                ==> use_count@[r] == 0,
        decreases dirty_uses.len() - k,
    {
        let idx = dirty_uses[k] as usize;
        use_count.set(idx, 0);
        proof {
            assert forall|r: int| 0 <= r < use_count@.len() && !dirty_uses@.subrange(k + 1, dirty_uses@.len() as int).contains(r as u32)
                implies use_count@[r] == 0 by {
                if r != idx {
                    if dirty_uses@.subrange(k as int, dirty_uses@.len() as int).contains(r as u32) {
                        let j = choose|j: int| 0 <= j < dirty_uses@.len() - k && dirty_uses@.subrange(k as int, dirty_uses@.len() as int)[j] == r as u32;
                        if j == 0 {
                            assert(dirty_uses@[k as int] == r as u32);
                            assert(idx == r);
                        } else {
                            assert(dirty_uses@.subrange(k + 1, dirty_uses@.len() as int)[j - 1] == r as u32);
                        }
                    }
                }
            }
        }
        k = k + 1;
    }
    assert(dirty_uses@.subrange(k as int, dirty_uses@.len() as int) =~= Seq::<u32>::empty());
    dirty_uses.clear();
    let n = use_count.len();
    let mut i: usize = 0;
    while i < instrs.len()
        invariant
            i <= instrs@.len(),
            use_count@.len() == n,
            pools_ok(instrs@, arg_pool@),
            all_uses(instrs@, arg_pool@, instrs@.len() as int).len() < usize::MAX,
            forall|r: int| 0 <= r < n ==> use_count@[r] == count_in(all_uses(instrs@, arg_pool@, i as int), r as u32),
            clean_outside(use_count@, dirty_uses@),
            n <= u32::MAX,
        decreases instrs.len() - i,
    {
        let u = uses(&instrs[i], arg_pool);
        let ghost before = all_uses(instrs@, arg_pool@, i as int);
        proof { lemma_all_uses_len_mono(instrs@, arg_pool@, i + 1, instrs@.len() as int); }
        let mut j: usize = 0;
        while j < u.len()
            invariant
                j <= u@.len(),
                u@ == uses_of(instrs@[i as int], arg_pool@),
                use_count@.len() == n,
                all_uses(instrs@, arg_pool@, i + 1) == before + u@,
                (before + u@).len() < usize::MAX,
                forall|r: int| 0 <= r < n ==> use_count@[r] == count_in(before + u@.subrange(0, j as int), r as u32),
                clean_outside(use_count@, dirty_uses@),
                n <= u32::MAX,
            decreases u.len() - j,
        {
            let reg = u[j];
            proof {
                assert((before + u@.subrange(0, j + 1)) =~= (before + u@.subrange(0, j as int)).push(reg));
                lemma_count_in_le_len(before + u@.subrange(0, j as int), reg);
                assert((before + u@.subrange(0, j as int)).len() < (before + u@).len());
                assert forall|r: int| 0 <= r < n implies
                    #[trigger] count_in(before + u@.subrange(0, j + 1), r as u32)
                        == count_in(before + u@.subrange(0, j as int), r as u32) + (if reg == r as u32 { 1nat } else { 0nat }) by {
                    lemma_count_in_push(before + u@.subrange(0, j as int), reg, r as u32);
                }
            }
            if (reg as usize) < use_count.len() {
                let cur = use_count[reg as usize];
                let ghost old_dirty = dirty_uses@;
                if cur == 0 {
                    dirty_uses.push(reg);
                } else {
                    assert(dirty_uses@.contains(reg));
                }
                proof {
                    assert forall|x: u32| old_dirty.contains(x) implies dirty_uses@.contains(x) by {
                        let q = choose|q: int| 0 <= q < old_dirty.len() && old_dirty[q] == x;
                        assert(dirty_uses@[q] == x);
                    }
                    assert(dirty_uses@.contains(reg)) by {
                        if cur == 0 { assert(dirty_uses@[dirty_uses@.len() - 1] == reg); }
                    }
                }
                use_count.set(reg as usize, cur + 1);
            } else {
                assert forall|r: int| 0 <= r < n implies #[trigger] use_count@[r] == count_in(before + u@.subrange(0, j + 1), r as u32) by {
                    assert(r as u32 != reg);
                }
            }
            j = j + 1;
        }
        assert(u@.subrange(0, u@.len() as int) =~= u@);
        i = i + 1;
    }
}

} // verus!
