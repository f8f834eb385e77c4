//! Why the register allocator is safe.
//!
//! Over a program in which every instruction writes a temporary of its own,
//! the allocator never gives a temporary the register of another temporary
//! that is still to be read, never gives one a register below the parameters
//! and constants, and hands out registers below the count it reports.

use vstd::prelude::*;
use vstd::seq_lib::lemma_no_dup_in_concat;
use super::lower::{lower_of, pooled_of, vphys, vphys_all};
use super::reg_alloc::{AllocCtx, alloc_upto, deaths_below, place, pooled_total, takes_reg_0, lemma_pooled_len};
use super::vir::{VInstruction, VReg, vdest_of, vreads_of};

verus! {

/// Whether instruction `j` of `s` writes temporary `t`.
pub open spec fn writes_temp(s: Seq<VInstruction>, j: int, t: int) -> bool {
    vdest_of(s[j]) == VReg::Temp(t as u32)
}

/// Whether one of the first `k` instructions of `s` writes temporary `t`.
pub open spec fn written_before(s: Seq<VInstruction>, t: int, k: int) -> bool {
    exists|j: int| 0 <= j < k && #[trigger] writes_temp(s, j, t)
}

/// Every instruction writes a temporary below `nt`, and no two write the same.
pub open spec fn distinct_temp_dests(s: Seq<VInstruction>, nt: nat) -> bool {
    &&& forall|k: int| 0 <= k < s.len() ==> (#[trigger] vdest_of(s[k]) matches VReg::Temp(t) && t < nt)
    &&& forall|j: int, k: int| 0 <= j < k < s.len() ==> vdest_of(#[trigger] s[j]) != vdest_of(#[trigger] s[k])
}

/// The result goes straight to register 0 at no instruction but the last.
pub open spec fn reg_0_rule_last(s: Seq<VInstruction>, ctx: AllocCtx) -> bool {
    forall|k: int| 0 <= k < s.len() - 1 ==> !(ctx.fin == Some(vdest_of(#[trigger] s[k])) && takes_reg_0(ctx, k))
}

/// Whether temporary `t` holds a value still to be read after the first `k`
/// instructions: one of them wrote it, and its last use is not before `k`.
pub open spec fn held(s: Seq<VInstruction>, ctx: AllocCtx, t: int, k: int) -> bool {
    &&& written_before(s, t, k)
    &&& ctx.lu[t] matches Some(l) && l >= k
}

/// The allocation state after `k` instructions is sound: free registers are
/// distinct, free and held registers lie between the parameters and
/// constants and the register count, held registers are not free and differ
/// from each other, and temporaries not yet written have no register.
pub open spec fn alloc_sound(s: Seq<VInstruction>, k: int, ctx: AllocCtx) -> bool {
    let st = alloc_upto(s, k, ctx);
    let base = ctx.pc + ctx.cc;
    &&& st.t2p.len() == ctx.lu.len()
    &&& base <= st.max_phys <= base + k
    &&& st.free.no_duplicates()
    &&& forall|i: int| 0 <= i < st.free.len() ==> base <= #[trigger] st.free[i] < st.max_phys
    &&& forall|t: int| 0 <= t < ctx.lu.len() && !written_before(s, t, k) ==> #[trigger] st.t2p[t] == u32::MAX
    &&& forall|t: int| 0 <= t < ctx.lu.len() && written_before(s, t, k) ==> base <= #[trigger] st.t2p[t] < st.max_phys
    &&& forall|t: int| 0 <= t < ctx.lu.len() && held(s, ctx, t, k) ==>
            base <= #[trigger] st.t2p[t] < st.max_phys && !st.free.contains(st.t2p[t])
    &&& forall|t: int, w: int| 0 <= t < ctx.lu.len() && 0 <= w < ctx.lu.len() && t != w
            && held(s, ctx, t, k) && held(s, ctx, w, k) ==> #[trigger] st.t2p[t] != #[trigger] st.t2p[w]
}

/// Every register freed after instruction `k` is that of a temporary whose
/// last use is `k` and that has a register; if those registers differ, the
/// freed registers are distinct.
pub proof fn lemma_deaths_members(lu: Seq<Option<usize>>, t2p: Seq<u32>, k: int, b: int)
    requires
        0 <= b <= lu.len(),
        b <= t2p.len(),
    ensures
        forall|i: int| 0 <= i < deaths_below(lu, t2p, k, b).len() ==> exists|t: int|
            0 <= t < b && lu[t] == Some(k as usize) && t2p[t] != u32::MAX && #[trigger] deaths_below(lu, t2p, k, b)[i] == t2p[t],
        (forall|t: int, w: int| 0 <= t < b && 0 <= w < b && t != w && lu[t] == Some(k as usize) && lu[w] == Some(k as usize)
            && t2p[t] != u32::MAX && t2p[w] != u32::MAX ==> #[trigger] t2p[t] != #[trigger] t2p[w])
            ==> deaths_below(lu, t2p, k, b).no_duplicates(),
    decreases b,
{
    if b > 0 {
        lemma_deaths_members(lu, t2p, k, b - 1);
        let rest = deaths_below(lu, t2p, k, b - 1);
        if !(lu[b - 1] == Some(k as usize) && t2p[b - 1] != u32::MAX) {
            let d = deaths_below(lu, t2p, k, b);
            assert(d == rest);
            assert forall|i: int| 0 <= i < d.len() implies exists|t: int|
                0 <= t < b && lu[t] == Some(k as usize) && t2p[t] != u32::MAX && #[trigger] d[i] == t2p[t] by {
                let t = choose|t: int| 0 <= t < b - 1 && lu[t] == Some(k as usize) && t2p[t] != u32::MAX && #[trigger] rest[i] == t2p[t];
                assert(d[i] == t2p[t]);
            }
        } else {
            let d = deaths_below(lu, t2p, k, b);
            assert(d == seq![t2p[b - 1]] + rest);
            assert forall|i: int| 0 <= i < d.len() implies exists|t: int|
                0 <= t < b && lu[t] == Some(k as usize) && t2p[t] != u32::MAX && #[trigger] d[i] == t2p[t] by {
                if i == 0 {
                    assert(d[0] == t2p[b - 1]);
                } else {
                    assert(d[i] == rest[i - 1]);
                    let t = choose|t: int| 0 <= t < b - 1 && lu[t] == Some(k as usize) && t2p[t] != u32::MAX && #[trigger] rest[i - 1] == t2p[t];
                    assert(d[i] == t2p[t]);
                }
            }
            if forall|t: int, w: int| 0 <= t < b && 0 <= w < b && t != w && lu[t] == Some(k as usize) && lu[w] == Some(k as usize)
                && t2p[t] != u32::MAX && t2p[w] != u32::MAX ==> #[trigger] t2p[t] != #[trigger] t2p[w] {
                assert forall|i: int| 0 <= i < rest.len() implies rest[i] != t2p[b - 1] by {
                    let t = choose|t: int| 0 <= t < b - 1 && lu[t] == Some(k as usize) && t2p[t] != u32::MAX && #[trigger] rest[i] == t2p[t];
                    assert(t2p[t] != t2p[b - 1]);
                }
                lemma_no_dup_in_concat(seq![t2p[b - 1]], rest);
            }
        }
    }
}

/// Every state has one register entry per temporary.
pub proof fn lemma_t2p_len(s: Seq<VInstruction>, ctx: AllocCtx, k: int)
    requires
        0 <= k <= s.len(),
        distinct_temp_dests(s, ctx.lu.len()),
    ensures
        alloc_upto(s, k, ctx).t2p.len() == ctx.lu.len(),
    decreases k,
{
    if k > 0 {
        lemma_t2p_len(s, ctx, k - 1);
        assert(vdest_of(s[k - 1]) matches VReg::Temp(u) && u < ctx.lu.len());
    }
}

/// A temporary's register changes only at instructions that write it.
pub proof fn lemma_t2p_stable(s: Seq<VInstruction>, ctx: AllocCtx, t: int, a: int, b: int)
    requires
        0 <= a <= b <= s.len(),
        0 <= t < ctx.lu.len() <= u32::MAX,
        distinct_temp_dests(s, ctx.lu.len()),
        forall|j: int| a <= j < b ==> !writes_temp(s, j, t),
    ensures
        alloc_upto(s, b, ctx).t2p[t] == alloc_upto(s, a, ctx).t2p[t],
        alloc_upto(s, b, ctx).t2p.len() == alloc_upto(s, a, ctx).t2p.len(),
    decreases b - a,
{
    if a < b {
        lemma_t2p_stable(s, ctx, t, a, b - 1);
        lemma_t2p_len(s, ctx, b - 1);
        assert(!writes_temp(s, b - 1, t));
        assert(vdest_of(s[b - 1]) matches VReg::Temp(u) && u < ctx.lu.len());
        let st = alloc_upto(s, b - 1, ctx);
        let pl = place(st, vdest_of(s[b - 1]), b - 1, ctx);
        assert(pl.1.t2p[t] == st.t2p[t]);
        assert(pl.1.t2p.len() == st.t2p.len());
    }
}

/// A temporary is written before `k + 1` exactly when it is written before
/// `k` or by instruction `k`.
pub proof fn lemma_written_step(s: Seq<VInstruction>, t: int, k: int)
    requires
        0 <= k,
    ensures
        written_before(s, t, k + 1) <==> (written_before(s, t, k) || writes_temp(s, k, t)),
{
    if written_before(s, t, k + 1) && !writes_temp(s, k, t) {
        let j = choose|j: int| 0 <= j < k + 1 && #[trigger] writes_temp(s, j, t);
        assert(j < k);
    }
    if written_before(s, t, k) {
        let j = choose|j: int| 0 <= j < k && #[trigger] writes_temp(s, j, t);
        assert(0 <= j < k + 1 && writes_temp(s, j, t));
    }
    if writes_temp(s, k, t) {
        assert(0 <= k < k + 1 && writes_temp(s, k, t));
    }
}

/// An instruction whose result does not go straight to register 0 keeps the
/// allocation state sound.
pub proof fn lemma_sound_step(s: Seq<VInstruction>, ctx: AllocCtx, k: int)
    requires
        0 <= k < s.len(),
        ctx.lu.len() <= u32::MAX,
        distinct_temp_dests(s, ctx.lu.len()),
        ctx.pc + ctx.cc + s.len() <= u32::MAX,
        !(ctx.fin == Some(vdest_of(s[k])) && takes_reg_0(ctx, k)),
        alloc_sound(s, k, ctx),
    ensures
        alloc_sound(s, k + 1, ctx),
        forall|t: int, u: int| 0 <= t < ctx.lu.len() && 0 <= u < ctx.lu.len() && held(s, ctx, t, k) && writes_temp(s, k, u) ==>
            #[trigger] alloc_upto(s, k + 1, ctx).t2p[t] != #[trigger] alloc_upto(s, k + 1, ctx).t2p[u],
{
    let st = alloc_upto(s, k, ctx);
    let nt = ctx.lu.len();
    let base = ctx.pc + ctx.cc;
    let d = vdest_of(s[k]);
    assert(d matches VReg::Temp(x) && x < nt);
    let u: int = match d {
        VReg::Temp(x) => x as int,
        _ => 0,
    };
    let pl = place(st, d, k, ctx);
    let p = pl.0;
    let st1 = pl.1;
    let t2p1 = st1.t2p;
    let dths = deaths_below(ctx.lu, t2p1, k, nt as int);
    let st2 = alloc_upto(s, k + 1, ctx);
    assert(st2.t2p == t2p1);
    assert(st2.free == st1.free + dths);
    assert(st2.max_phys == st1.max_phys);
    let free1 = if st.free.len() > 0 { st.free.drop_last() } else { st.free };
    assert(t2p1 == st.t2p.update(u, p));
    assert(st1.free == (if ctx.lu[u] is None { free1.push(p) } else { free1 }));
    assert(!written_before(s, u, k)) by {
        if written_before(s, u, k) {
            let j = choose|j: int| 0 <= j < k && #[trigger] writes_temp(s, j, u);
            assert(vdest_of(s[j]) != vdest_of(s[k]));
        }
    }
    assert(writes_temp(s, k, u));
    assert(forall|t: int| 0 <= t < nt && t != u ==> !#[trigger] writes_temp(s, k, t));
    // The register taken is not held and not left free.
    assert(base <= p < st1.max_phys <= base + k + 1);
    assert(p != u32::MAX);
    assert(!free1.contains(p)) by {
        if st.free.len() > 0 {
            if free1.contains(p) {
                let i = choose|i: int| 0 <= i < free1.len() && free1[i] == p;
                assert(st.free[i] == st.free[st.free.len() - 1]);
            }
        } else {
            if free1.contains(p) {
                let i = choose|i: int| 0 <= i < free1.len() && free1[i] == p;
                assert(st.free[i] < st.max_phys);
            }
        }
    }
    assert(forall|x: u32| free1.contains(x) ==> st.free.contains(x)) by {
        assert forall|x: u32| free1.contains(x) implies st.free.contains(x) by {
            let i = choose|i: int| 0 <= i < free1.len() && free1[i] == x;
            assert(st.free[i] == x);
        }
    }
    assert forall|t: int| 0 <= t < nt && held(s, ctx, t, k) implies #[trigger] st.t2p[t] != p by {
        if st.free.len() > 0 {
            assert(st.free.contains(st.free[st.free.len() - 1]));
        }
    }
    // The registers freed after instruction `k`.
    lemma_deaths_members(ctx.lu, t2p1, k, nt as int);
    assert forall|t: int| 0 <= t < nt && ctx.lu[t] == Some(k as usize) && t2p1[t] != u32::MAX && t != u
        implies held(s, ctx, t, k) by {
        assert(st.t2p[t] != u32::MAX);
    }
    assert(dths.no_duplicates()) by {
        assert forall|t: int, w: int| 0 <= t < nt && 0 <= w < nt && t != w && ctx.lu[t] == Some(k as usize)
            && ctx.lu[w] == Some(k as usize) && t2p1[t] != u32::MAX && t2p1[w] != u32::MAX
            implies #[trigger] t2p1[t] != #[trigger] t2p1[w] by {
            if t == u {
                assert(held(s, ctx, w, k));
            } else if w == u {
                assert(held(s, ctx, t, k));
            } else {
                assert(held(s, ctx, t, k));
                assert(held(s, ctx, w, k));
            }
        }
    }
    // Each freed register is that of a held temporary dying now, or `p` when `u` dies now.
    assert forall|i: int| 0 <= i < dths.len() implies
        (#[trigger] dths[i] == p && ctx.lu[u] == Some(k as usize))
        || (exists|t: int| 0 <= t < nt && t != u && held(s, ctx, t, k) && ctx.lu[t] == Some(k as usize) && dths[i] == st.t2p[t]) by {
        let t = choose|t: int| 0 <= t < nt && ctx.lu[t] == Some(k as usize) && t2p1[t] != u32::MAX && #[trigger] dths[i] == t2p1[t];
        if t != u {
            assert(held(s, ctx, t, k));
        }
    }
    // Soundness after the step.
    assert forall|t: int| 0 <= t < nt && !written_before(s, t, k + 1) implies #[trigger] st2.t2p[t] == u32::MAX by {
        lemma_written_step(s, t, k);
    }
    assert forall|t: int| 0 <= t < nt && written_before(s, t, k + 1) implies base <= #[trigger] st2.t2p[t] < st2.max_phys by {
        lemma_written_step(s, t, k);
    }
    assert forall|t: int, w: int| 0 <= t < nt && 0 <= w < nt && held(s, ctx, t, k) && writes_temp(s, k, w) implies
        #[trigger] st2.t2p[t] != #[trigger] st2.t2p[w] by {
        assert(vdest_of(s[k]) == VReg::Temp(w as u32));
        assert(w == u);
        assert(t != u);
    }
    assert forall|t: int| 0 <= t < nt && held(s, ctx, t, k + 1) implies
        base <= #[trigger] st2.t2p[t] < st2.max_phys && !st2.free.contains(st2.t2p[t]) by {
        lemma_written_step(s, t, k);
        let x = st2.t2p[t];
        if st2.free.contains(x) {
            let i = choose|i: int| 0 <= i < st2.free.len() && st2.free[i] == x;
            if i < st1.free.len() {
                assert(st1.free[i] == x);
                if t == u {
                    assert(x == p);
                } else {
                    assert(held(s, ctx, t, k));
                    if !(ctx.lu[u] is None && i == free1.len()) {
                        assert(free1[i] == x);
                    }
                }
            } else {
                let i2 = i - st1.free.len();
                assert(dths[i2] == x);
                if t == u {
                } else {
                    assert(held(s, ctx, t, k));
                    if !(dths[i2] == p && ctx.lu[u] == Some(k as usize)) {
                        let w = choose|w: int| 0 <= w < nt && w != u && held(s, ctx, w, k) && ctx.lu[w] == Some(k as usize) && dths[i2] == st.t2p[w];
                        assert(w != t);
                    }
                }
            }
        }
    }
    assert forall|t: int, w: int| 0 <= t < nt && 0 <= w < nt && t != w
        && held(s, ctx, t, k + 1) && held(s, ctx, w, k + 1) implies #[trigger] st2.t2p[t] != #[trigger] st2.t2p[w] by {
        lemma_written_step(s, t, k);
        lemma_written_step(s, w, k);
        if t != u && w != u {
            assert(held(s, ctx, t, k));
            assert(held(s, ctx, w, k));
        } else if t == u {
            assert(held(s, ctx, w, k));
        } else {
            assert(held(s, ctx, t, k));
        }
    }
    assert forall|i: int| 0 <= i < st2.free.len() implies base <= #[trigger] st2.free[i] < st2.max_phys by {
        if i < st1.free.len() {
            if !(ctx.lu[u] is None && i == free1.len()) {
                assert(free1.contains(free1[i]));
                assert(st.free.contains(free1[i]));
            }
        } else {
            let i2 = i - st1.free.len();
            assert(st2.free[i] == dths[i2]);
            if !(dths[i2] == p && ctx.lu[u] == Some(k as usize)) {
                let w = choose|w: int| 0 <= w < nt && w != u && held(s, ctx, w, k) && ctx.lu[w] == Some(k as usize) && dths[i2] == st.t2p[w];
            }
        }
    }
    assert(st1.free.no_duplicates()) by {
        if ctx.lu[u] is None {
            lemma_no_dup_in_concat(free1, seq![p]);
            assert(free1 + seq![p] =~= free1.push(p));
        }
    }
    assert(st2.free.no_duplicates()) by {
        assert forall|i: int, j: int| 0 <= i < st1.free.len() && 0 <= j < dths.len() implies st1.free[i] != dths[j] by {
            let x = dths[j];
            if st1.free[i] == x {
                if x == p && ctx.lu[u] == Some(k as usize) {
                    assert(free1[i] == p);
                } else {
                    let w = choose|w: int| 0 <= w < nt && w != u && held(s, ctx, w, k) && ctx.lu[w] == Some(k as usize) && x == st.t2p[w];
                    if ctx.lu[u] is None && i == free1.len() {
                    } else {
                        assert(free1[i] == x);
                    }
                }
            }
        }
        lemma_no_dup_in_concat(st1.free, dths);
    }
}

/// The state is sound after every instruction up to the last, and after the
/// last too when the result does not go straight to register 0 there.
pub proof fn lemma_sound_upto(s: Seq<VInstruction>, ctx: AllocCtx, k: int)
    requires
        0 <= k <= s.len(),
        ctx.lu.len() <= u32::MAX,
        distinct_temp_dests(s, ctx.lu.len()),
        ctx.pc + ctx.cc + s.len() <= u32::MAX,
        forall|j: int| 0 <= j < k ==> !(ctx.fin == Some(vdest_of(#[trigger] s[j])) && takes_reg_0(ctx, j)),
    ensures
        alloc_sound(s, k, ctx),
    decreases k,
{
    if k == 0 {
        let st = alloc_upto(s, 0, ctx);
        assert(st.free =~= Seq::<u32>::empty());
        assert forall|t: int| 0 <= t < ctx.lu.len() implies !written_before(s, t, 0) by {}
    } else {
        lemma_sound_upto(s, ctx, k - 1);
        lemma_sound_step(s, ctx, k - 1);
    }
}

/// Law: a temporary never gets the register of another temporary that was
/// written before it and is still to be read after it.
///
/// This holds of programs in which every instruction writes a temporary of
/// its own, whose last uses lie inside the program, and in which the result
/// goes straight to register 0 at the last instruction if anywhere.
pub proof fn law_live_registers_differ(s: Seq<VInstruction>, ctx: AllocCtx, j: int, k: int, t: int, u: int)
    requires
        ctx.lu.len() <= u32::MAX,
        distinct_temp_dests(s, ctx.lu.len()),
        ctx.pc + ctx.cc + s.len() <= u32::MAX,
        reg_0_rule_last(s, ctx),
        forall|x: int| 0 <= x < ctx.lu.len() ==> (#[trigger] ctx.lu[x] matches Some(l) ==> l < s.len()),
        0 <= j < k < s.len(),
        0 <= t < ctx.lu.len(),
        0 <= u < ctx.lu.len(),
        writes_temp(s, j, t),
        writes_temp(s, k, u),
        ctx.lu[t] matches Some(l) && k < l,
    ensures
        alloc_upto(s, s.len() as int, ctx).t2p[t] != alloc_upto(s, s.len() as int, ctx).t2p[u],
{
    assert(ctx.lu[t] matches Some(l) && l < s.len());
    assert forall|i: int| 0 <= i < k + 1 implies !(ctx.fin == Some(vdest_of(#[trigger] s[i])) && takes_reg_0(ctx, i)) by {
        assert(i < s.len() - 1);
    }
    lemma_sound_upto(s, ctx, k);
    assert(0 <= j < k && writes_temp(s, j, t));
    assert(held(s, ctx, t, k));
    lemma_sound_step(s, ctx, k);
    assert forall|i: int| k + 1 <= i < s.len() implies !writes_temp(s, i, t) by {
        assert(vdest_of(s[j]) != vdest_of(s[i]));
    }
    assert forall|i: int| k + 1 <= i < s.len() implies !writes_temp(s, i, u) by {
        assert(vdest_of(s[k]) != vdest_of(s[i]));
    }
    lemma_t2p_stable(s, ctx, t, k + 1, s.len() as int);
    lemma_t2p_stable(s, ctx, u, k + 1, s.len() as int);
}

/// Law: every temporary that an instruction writes gets a register at or
/// above those of the parameters and constants, and below the register
/// count the allocation reports.
///
/// This holds of programs in which every instruction writes a temporary of
/// its own and in which the result goes straight to register 0 at the last
/// instruction if anywhere, unless that instruction is the only one.
pub proof fn law_temp_registers_in_range(s: Seq<VInstruction>, ctx: AllocCtx, t: int)
    requires
        ctx.lu.len() <= u32::MAX,
        distinct_temp_dests(s, ctx.lu.len()),
        ctx.pc + ctx.cc + s.len() <= u32::MAX,
        reg_0_rule_last(s, ctx),
        !(s.len() == 1 && ctx.fin == Some(vdest_of(s[0])) && takes_reg_0(ctx, 0)),
        0 <= t < ctx.lu.len(),
        written_before(s, t, s.len() as int),
    ensures
        ctx.pc + ctx.cc <= alloc_upto(s, s.len() as int, ctx).t2p[t] < alloc_upto(s, s.len() as int, ctx).max_phys,
{
    let n = s.len() as int;
    assert forall|i: int| 0 <= i < n - 1 implies !(ctx.fin == Some(vdest_of(#[trigger] s[i])) && takes_reg_0(ctx, i)) by {}
    lemma_sound_upto(s, ctx, n - 1);
    let last_special = ctx.fin == Some(vdest_of(s[n - 1])) && takes_reg_0(ctx, n - 1);
    if !last_special {
        lemma_sound_step(s, ctx, n - 1);
    } else {
        let st = alloc_upto(s, n - 1, ctx);
        let st2 = alloc_upto(s, n, ctx);
        assert(n >= 2);
        lemma_sound_upto(s, ctx, 1);
        let st1 = alloc_upto(s, 1, ctx);
        assert(vdest_of(s[0]) matches VReg::Temp(x) && x < ctx.lu.len());
        let x: int = match vdest_of(s[0]) {
            VReg::Temp(y) => y as int,
            _ => 0,
        };
        assert(writes_temp(s, 0, x));
        assert(written_before(s, x, 1));
        assert(st1.t2p[x] < st1.max_phys);
        lemma_max_phys_mono(s, ctx, 1, n - 1);
        assert(st.max_phys >= 1);
        assert(st2.max_phys == st.max_phys);
        lemma_written_step(s, t, n - 1);
        if !writes_temp(s, n - 1, t) {
            assert(vdest_of(s[n - 1]) matches VReg::Temp(y) && y < ctx.lu.len());
            assert(st2.t2p[t] == st.t2p[t]);
        }
    }
}

/// The register count never shrinks.
pub proof fn lemma_max_phys_mono(s: Seq<VInstruction>, ctx: AllocCtx, a: int, b: int)
    requires
        0 <= a <= b <= s.len(),
    ensures
        alloc_upto(s, a, ctx).max_phys <= alloc_upto(s, b, ctx).max_phys,
    decreases b - a,
{
    if a < b {
        lemma_max_phys_mono(s, ctx, a, b - 1);
    }
}

/// Every temporary an instruction reads is written by an earlier instruction.
pub open spec fn reads_written_before(s: Seq<VInstruction>) -> bool {
    forall|k: int, q: int| 0 <= k < s.len() && 0 <= q < vreads_of(s[k]).len() ==>
        (#[trigger] vreads_of(s[k])[q] matches VReg::Temp(t) ==> written_before(s, t as int, k))
}

/// Every call has one to four arguments, so that every instruction emits one.
pub open spec fn calls_lowerable(s: Seq<VInstruction>) -> bool {
    forall|k: int| 0 <= k < s.len() ==> (#[trigger] s[k] matches VInstruction::BuiltinFun { args, .. } ==> 1 <= args@.len() <= 4)
}

/// What an instruction is lowered to depends on where the temporaries are
/// only through the temporaries it reads.
pub proof fn lemma_lower_local(i: VInstruction, d: u32, pc: u32, t1: Seq<u32>, t2: Seq<u32>, pl: int)
    requires
        forall|q: int| 0 <= q < vreads_of(i).len() ==>
            vphys(#[trigger] vreads_of(i)[q], pc, t1) == vphys(vreads_of(i)[q], pc, t2),
    ensures
        lower_of(i, d, pc, t1, pl) == lower_of(i, d, pc, t2, pl),
        pooled_of(i, pc, t1) == pooled_of(i, pc, t2),
{
    let rs = vreads_of(i);
    assert(forall|q: int| 0 <= q < rs.len() ==> vphys(#[trigger] rs[q], pc, t1) == vphys(rs[q], pc, t2));
    match i {
        VInstruction::Add { srcs, .. } => {
            assert(vphys_all(srcs@, pc, t1) =~= vphys_all(srcs@, pc, t2));
        },
        VInstruction::Mul { srcs, .. } => {
            assert(vphys_all(srcs@, pc, t1) =~= vphys_all(srcs@, pc, t2));
        },
        VInstruction::BuiltinFun { args, .. } => {
            assert(vphys_all(args@, pc, t1) =~= vphys_all(args@, pc, t2));
        },
        _ => {
            if rs.len() > 0 {
                assert(vphys(rs[0], pc, t1) == vphys(rs[0], pc, t2));
            }
            if rs.len() > 1 {
                assert(vphys(rs[1], pc, t1) == vphys(rs[1], pc, t2));
            }
            if rs.len() > 2 {
                assert(vphys(rs[2], pc, t1) == vphys(rs[2], pc, t2));
            }
        },
    }
}

/// After `m` instructions, one instruction has been emitted for each, lowered
/// with the registers in place right after it, and the pool holds what they
/// appended.
pub proof fn lemma_out_prefix(s: Seq<VInstruction>, ctx: AllocCtx, m: int)
    requires
        0 <= m <= s.len(),
        calls_lowerable(s),
    ensures
        alloc_upto(s, m, ctx).out.len() == m,
        alloc_upto(s, m, ctx).pool.len() == pooled_total(s, m),
        forall|k: int| 0 <= k < m ==> #[trigger] alloc_upto(s, m, ctx).out[k] == lower_of(s[k],
            place(alloc_upto(s, k, ctx), vdest_of(s[k]), k, ctx).0, ctx.pc,
            alloc_upto(s, k + 1, ctx).t2p, pooled_total(s, k) as int).unwrap(),
    decreases m,
{
    if m > 0 {
        lemma_out_prefix(s, ctx, m - 1);
        let st = alloc_upto(s, m - 1, ctx);
        let pl = place(st, vdest_of(s[m - 1]), m - 1, ctx);
        lemma_pooled_len(s[m - 1], ctx.pc, pl.1.t2p);
        assert(s[m - 1] matches VInstruction::BuiltinFun { args, .. } ==> 1 <= args@.len() <= 4);
        assert(lower_of(s[m - 1], pl.0, ctx.pc, pl.1.t2p, pl.1.pool.len() as int) is Some);
        let o = alloc_upto(s, m, ctx).out;
        assert forall|k: int| 0 <= k < m implies #[trigger] o[k] == lower_of(s[k],
            place(alloc_upto(s, k, ctx), vdest_of(s[k]), k, ctx).0, ctx.pc,
            alloc_upto(s, k + 1, ctx).t2p, pooled_total(s, k) as int).unwrap() by {
            if k < m - 1 {
                assert(o[k] == st.out[k]);
            }
        }
    }
}

/// Law: the allocation emits, for each instruction in turn, the instruction
/// it lowers to with every temporary in the register it ends up in, and with
/// the argument pool as long as the earlier instructions made it.
///
/// This holds of programs in which every instruction writes a temporary of
/// its own, every temporary is written before it is read, and every call
/// has one to four arguments.
pub proof fn law_lowering_uses_final_registers(s: Seq<VInstruction>, ctx: AllocCtx, k: int)
    requires
        ctx.lu.len() <= u32::MAX,
        distinct_temp_dests(s, ctx.lu.len()),
        reads_written_before(s),
        calls_lowerable(s),
        0 <= k < s.len(),
    ensures
        alloc_upto(s, s.len() as int, ctx).out.len() == s.len(),
        ({
            let fin = alloc_upto(s, s.len() as int, ctx);
            fin.out[k] == lower_of(s[k], vphys(vdest_of(s[k]), ctx.pc, fin.t2p), ctx.pc, fin.t2p,
                pooled_total(s, k) as int).unwrap()
        }),
{
    let n = s.len() as int;
    let fin = alloc_upto(s, n, ctx);
    lemma_out_prefix(s, ctx, n);
    let st = alloc_upto(s, k, ctx);
    let st1 = alloc_upto(s, k + 1, ctx);
    let pl = place(st, vdest_of(s[k]), k, ctx);
    assert(vdest_of(s[k]) matches VReg::Temp(x) && x < ctx.lu.len());
    let u: int = match vdest_of(s[k]) {
        VReg::Temp(x) => x as int,
        _ => 0,
    };
    lemma_t2p_len(s, ctx, k);
    assert(st1.t2p[u] == pl.0);
    assert forall|i: int| k + 1 <= i < n implies !writes_temp(s, i, u) by {
        assert(vdest_of(s[k]) != vdest_of(s[i]));
    }
    lemma_t2p_stable(s, ctx, u, k + 1, n);
    let rs = vreads_of(s[k]);
    assert forall|q: int| 0 <= q < rs.len() implies
        vphys(#[trigger] rs[q], ctx.pc, st1.t2p) == vphys(rs[q], ctx.pc, fin.t2p) by {
        if let VReg::Temp(t) = rs[q] {
            assert(vreads_of(s[k])[q] matches VReg::Temp(t2) ==> written_before(s, t2 as int, k));
            assert(written_before(s, t as int, k));
            let j = choose|j: int| 0 <= j < k && #[trigger] writes_temp(s, j, t as int);
            assert(t < ctx.lu.len());
            assert forall|i: int| k + 1 <= i < n implies !writes_temp(s, i, t as int) by {
                assert(vdest_of(s[j]) != vdest_of(s[i]));
            }
            lemma_t2p_stable(s, ctx, t as int, k + 1, n);
        }
    }
    lemma_lower_local(s[k], pl.0, ctx.pc, st1.t2p, fin.t2p, pooled_total(s, k) as int);
}

} // verus!
