//! Fusion of `sin`/`cos` and `asin`/`acos` pairs that need not be adjacent.
//!
//! A forward scan pairs each `sin(x)` with a `cos(x)` of the same argument
//! register (or `asin` with `acos`), forgetting a pending one when its
//! argument register is overwritten. A pair is fused when no instruction
//! between the two touches the earlier result register: the later
//! instruction becomes the combined one and the earlier a no-op copy.

use vstd::prelude::*;
use std::collections::HashMap;
use rustc_hash::{FxBuildHasher, FxHashMap};
use super::instruction::{Instruction, FnOp, reads_of, writes_of, pool_range_of};
use super::uses::{pool_ok, pooled_reads_of};

verus! {

// ---------------------------------------------------------------------------
// Conflicts
// ---------------------------------------------------------------------------

/// Whether `i` writes, reads, or reads through the pool the register `r`.
pub open spec fn touches(i: Instruction, pool: Seq<u32>, r: u32) -> bool {
    writes_of(i).contains(r) || reads_of(i).contains(r) || pooled_reads_of(i, pool).contains(r)
}

/// Whether `r` occurs in `v`.
fn contains_reg(v: &Vec<u32>, r: u32) -> (b: bool)
    ensures
        b == v@.contains(r),
{
    let mut i: usize = 0;
    while i < v.len()
        invariant
            i <= v@.len(),
            forall|j: int| 0 <= j < i ==> v@[j] != r,
        decreases v.len() - i,
    {
        if v[i] == r {
            assert(v@[i as int] == r);
            return true;
        }
        i = i + 1;
    }
    false
}

/// Whether the pool slice of `i` holds `r`.
fn pooled_contains(i: &Instruction, pool: &[u32], r: u32) -> (b: bool)
    requires
        pool_ok(*i, pool@),
    ensures
        b == pooled_reads_of(*i, pool@).contains(r),
{
    match i.arg_pool_range() {
        Some((s, c)) => {
            assert(pool_range_of(*i) == Some((s, c)));
            let plen = pool.len();
            assert(s + c <= plen);
            let start = s as usize;
            let end = start + c as usize;
            let ghost pr = pooled_reads_of(*i, pool@);
            assert(pr == pool@.subrange(start as int, end as int));
            let mut k: usize = start;
            while k < end
                invariant
                    start <= k <= end,
                    end <= pool@.len(),
                    pr == pool@.subrange(start as int, end as int),
                    pr == pooled_reads_of(*i, pool@),
                    start == s,
                    end == s + c,
                    forall|j: int| start <= j < k ==> pool@[j] != r,
                decreases end - k,
            {
                if pool[k] == r {
                    assert(pool@[k as int] == r);
                    assert(pr[k - start] == pool@[k as int]);
                    return true;
                }
                k = k + 1;
            }
            assert forall|j: int| 0 <= j < pr.len() implies pr[j] != r by {
                assert(pr[j] == pool@[start + j]);
            }
            false
        },
        None => false,
    }
}

/// Whether an instruction of `instructions` touches `dest`.
pub fn has_conflict(instructions: &[Instruction], dest: u32, arg_pool: &[u32]) -> (r: bool)
    requires
        forall|k: int| 0 <= k < instructions@.len() ==> pool_ok(#[trigger] instructions@[k], arg_pool@),
    ensures
        r == exists|k: int| 0 <= k < instructions@.len() && touches(#[trigger] instructions@[k], arg_pool@, dest),
{
    let mut i: usize = 0;
    while i < instructions.len()
        invariant
            i <= instructions@.len(),
            forall|k: int| 0 <= k < instructions@.len() ==> pool_ok(#[trigger] instructions@[k], arg_pool@),
            forall|k: int| 0 <= k < i ==> !touches(#[trigger] instructions@[k], arg_pool@, dest),
        decreases instructions.len() - i,
    {
        let instr = &instructions[i];
        let w = instr.writes();
        let rd = instr.reads();
        if contains_reg(&w, dest) || contains_reg(&rd, dest) || pooled_contains(instr, arg_pool, dest) {
            assert(touches(instructions@[i as int], arg_pool@, dest));
            return true;
        }
        i = i + 1;
    }
    false
}

// ---------------------------------------------------------------------------
// The pending tables: `FxHashMap`s behind trusted wrappers
// ---------------------------------------------------------------------------

/// What a pending table holds: argument register to (index, result register).
pub uninterp spec fn pending(m: HashMap<u32, (usize, u32), FxBuildHasher>) -> Map<u32, (usize, u32)>;

/// The table with nothing pending.
pub open spec fn nothing_pending() -> Map<u32, (usize, u32)> {
    Map::empty()
}

/// `FxHashMap::default`: an empty table.
#[verifier::external_body]
fn pending_new() -> (r: FxHashMap<u32, (usize, u32)>)
    ensures
        pending(r) == nothing_pending(),
{
    FxHashMap::default()
}

/// `HashMap::get`, the entry copied out: what is pending for `arg`.
#[verifier::external_body]
fn pending_get(m: &FxHashMap<u32, (usize, u32)>, arg: u32) -> (r: Option<(usize, u32)>)
    ensures
        match r {
            Some(e) => pending(*m).contains_key(arg) && pending(*m)[arg] == e,
            None => !pending(*m).contains_key(arg),
        },
{
    m.get(&arg).copied()
}

/// `HashMap::insert`: make `e` pending for `arg`.
#[verifier::external_body]
fn pending_insert(m: &mut FxHashMap<u32, (usize, u32)>, arg: u32, e: (usize, u32))
    ensures
        pending(*final(m)) == pending(*old(m)).insert(arg, e),
{
    m.insert(arg, e);
}

/// `HashMap::remove`: forget what is pending for `arg`.
#[verifier::external_body]
fn pending_remove(m: &mut FxHashMap<u32, (usize, u32)>, arg: u32)
    ensures
        pending(*final(m)) == pending(*old(m)).remove(arg),
{
    m.remove(&arg);
}

// ---------------------------------------------------------------------------
// Finding pairs
// ---------------------------------------------------------------------------

/// Which pair is sought.
#[derive(Clone, Copy, Debug, PartialEq, Eq, Structural)]
pub enum PairKind {
    SinCos,
    AsinAcos,
}

/// The role of `i` in a pair: first (`sin`, `asin`) or second (`cos`, `acos`)
/// member, with its result and argument registers.
pub open spec fn member(kind: PairKind, i: Instruction) -> Option<(bool, u32, u32)> {
    match kind {
        PairKind::SinCos => match i {
            Instruction::Sin { dest, arg } => Some((true, dest, arg)),
            Instruction::Cos { dest, arg } => Some((false, dest, arg)),
            _ => None,
        },
        PairKind::AsinAcos => match i {
            Instruction::Builtin1 { dest, op: FnOp::Asin, arg } => Some((true, dest, arg)),
            Instruction::Builtin1 { dest, op: FnOp::Acos, arg } => Some((false, dest, arg)),
            _ => None,
        },
    }
}

/// A found pair: index of the first member, index of the second, argument,
/// result of the first, result of the second.
pub type Pair = (usize, usize, u32, u32, u32);

/// The state of the scan: pending first members, pending second members, pairs found.
pub struct Scan {
    pub firsts: Map<u32, (usize, u32)>,
    pub seconds: Map<u32, (usize, u32)>,
    pub pairs: Seq<Pair>,
}

/// One step of the scan over instruction `idx`.
pub open spec fn scan_step(kind: PairKind, st: Scan, idx: usize, i: Instruction) -> Scan {
    match member(kind, i) {
        Some((true, dest, arg)) => {
            if st.seconds.contains_key(arg) {
                let (j, d2) = st.seconds[arg];
                Scan { firsts: st.firsts, seconds: st.seconds.remove(arg), pairs: st.pairs.push((idx, j, arg, dest, d2)) }
            } else {
                Scan { firsts: st.firsts.insert(arg, (idx, dest)), seconds: st.seconds, pairs: st.pairs }
            }
        },
        Some((false, dest, arg)) => {
            if st.firsts.contains_key(arg) {
                let (j, d1) = st.firsts[arg];
                Scan { firsts: st.firsts.remove(arg), seconds: st.seconds, pairs: st.pairs.push((j, idx, arg, d1, dest)) }
            } else {
                Scan { firsts: st.firsts, seconds: st.seconds.insert(arg, (idx, dest)), pairs: st.pairs }
            }
        },
        None => Scan {
            firsts: st.firsts.remove_keys(writes_of(i).to_set()),
            seconds: st.seconds.remove_keys(writes_of(i).to_set()),
            pairs: st.pairs,
        },
    }
}

/// The scan state after the first `k` instructions.
pub open spec fn scan(kind: PairKind, s: Seq<Instruction>, k: int) -> Scan
    decreases k,
{
    if k <= 0 {
        Scan { firsts: Map::empty(), seconds: Map::empty(), pairs: Seq::empty() }
    } else {
        scan_step(kind, scan(kind, s, k - 1), (k - 1) as usize, s[k - 1])
    }
}

/// The pairs of the given kind that the scan finds in `s`.
pub open spec fn found_pairs(kind: PairKind, s: Seq<Instruction>) -> Seq<Pair> {
    scan(kind, s, s.len() as int).pairs
}

/// The role of `i` in a pair of the given kind.
fn member_exec(kind: PairKind, i: &Instruction) -> (r: Option<(bool, u32, u32)>)
    ensures
        r == member(kind, *i),
{
    match kind {
        PairKind::SinCos => match *i {
            Instruction::Sin { dest, arg } => Some((true, dest, arg)),
            Instruction::Cos { dest, arg } => Some((false, dest, arg)),
            _ => None,
        },
        PairKind::AsinAcos => match *i {
            Instruction::Builtin1 { dest, op: FnOp::Asin, arg } => Some((true, dest, arg)),
            Instruction::Builtin1 { dest, op: FnOp::Acos, arg } => Some((false, dest, arg)),
            _ => None,
        },
    }
}

/// The pairs of the given kind in `instructions`, as `found_pairs` states.
fn find_pairs(kind: PairKind, instructions: &[Instruction]) -> (r: Vec<Pair>)
    ensures
        r@ == found_pairs(kind, instructions@),
{
    let mut firsts = pending_new();
    let mut seconds = pending_new();
    let mut pairs: Vec<Pair> = Vec::new();
    let mut idx: usize = 0;
    while idx < instructions.len()
        invariant
            idx <= instructions@.len(),
            pending(firsts) == scan(kind, instructions@, idx as int).firsts,
            pending(seconds) == scan(kind, instructions@, idx as int).seconds,
            pairs@ == scan(kind, instructions@, idx as int).pairs,
        decreases instructions.len() - idx,
    {
        let instr = &instructions[idx];
        match member_exec(kind, instr) {
            Some((true, dest, arg)) => {
                match pending_get(&seconds, arg) {
                    Some((j, d2)) => {
                        pairs.push((idx, j, arg, dest, d2));
                        pending_remove(&mut seconds, arg);
                    },
                    None => {
                        pending_insert(&mut firsts, arg, (idx, dest));
                    },
                }
            },
            Some((false, dest, arg)) => {
                match pending_get(&firsts, arg) {
                    Some((j, d1)) => {
                        pairs.push((j, idx, arg, d1, dest));
                        pending_remove(&mut firsts, arg);
                    },
                    None => {
                        pending_insert(&mut seconds, arg, (idx, dest));
                    },
                }
            },
            None => {
                let w = instr.writes();
                let ghost f0 = pending(firsts);
                let ghost s0 = pending(seconds);
                let mut k: usize = 0;
                while k < w.len()
                    invariant
                        k <= w@.len(),
                        pending(firsts) == f0.remove_keys(w@.subrange(0, k as int).to_set()),
                        pending(seconds) == s0.remove_keys(w@.subrange(0, k as int).to_set()),
                    decreases w.len() - k,
                {
                    let reg = w[k];
                    pending_remove(&mut firsts, reg);
                    pending_remove(&mut seconds, reg);
                    proof {
                        let a = w@.subrange(0, k as int);
                        let b = w@.subrange(0, k + 1);
                        assert(b =~= a.push(reg));
                        assert forall|x: u32| b.to_set().contains(x) <==> #[trigger] a.to_set().insert(reg).contains(x) by {
                            if b.contains(x) {
                                let q = choose|q: int| 0 <= q < b.len() && b[q] == x;
                                if q < k {
                                    assert(a[q] == x);
                                }
                            }
                            if a.contains(x) {
                                let q = choose|q: int| 0 <= q < a.len() && a[q] == x;
                                assert(b[q] == x);
                            }
                            if x == reg {
                                assert(b[k as int] == x);
                            }
                        }
                        assert(b.to_set() =~= a.to_set().insert(reg));
                        assert(pending(firsts) =~= f0.remove_keys(w@.subrange(0, k + 1).to_set()));
                        assert(pending(seconds) =~= s0.remove_keys(w@.subrange(0, k + 1).to_set()));
                    }
                    k = k + 1;
                }
                assert(w@.subrange(0, w@.len() as int) =~= w@);
            },
        }
        idx = idx + 1;
    }
    pairs
}

/// The `asin`/`acos` pairs of `instructions`, as `found_pairs` states.
pub fn find_asin_acos_pairs(instructions: &[Instruction]) -> (r: Vec<Pair>)
    ensures
        r@ == found_pairs(PairKind::AsinAcos, instructions@),
{
    find_pairs(PairKind::AsinAcos, instructions)
}

// ---------------------------------------------------------------------------
// Fusing pairs
// ---------------------------------------------------------------------------

/// The combined instruction of a pair.
pub open spec fn combined(kind: PairKind, p: Pair) -> Instruction {
    match kind {
        PairKind::SinCos => Instruction::SinCos { sin_dest: p.3, cos_dest: p.4, arg: p.2 },
        PairKind::AsinAcos => Instruction::AsinAcos { asin_dest: p.3, acos_dest: p.4, arg: p.2 },
    }
}

/// The earlier index of a pair, the later one, and the result register of the earlier member.
pub open spec fn ordered(p: Pair) -> (int, int, u32) {
    if p.0 <= p.1 { (p.0 as int, p.1 as int, p.3) } else { (p.1 as int, p.0 as int, p.4) }
}

/// The stream and the change flag after fusing the first `k` pairs, in order:
/// a pair is fused when nothing strictly between its members touches the
/// earlier result register.
pub open spec fn fuse_pairs(kind: PairKind, s: Seq<Instruction>, pool: Seq<u32>, ps: Seq<Pair>, k: int) -> (Seq<Instruction>, bool)
    decreases k,
{
    if k <= 0 {
        (s, false)
    } else {
        let (cur, changed) = fuse_pairs(kind, s, pool, ps, k - 1);
        let (e, l, d) = ordered(ps[k - 1]);
        if exists|j: int| e < j < l && touches(#[trigger] cur[j], pool, d) {
            (cur, changed)
        } else {
            (cur.update(l, combined(kind, ps[k - 1])).update(e, Instruction::Copy { dest: d, src: d }), true)
        }
    }
}

/// Pairs found by the scan have distinct, in-range indices.
pub open spec fn pairs_in_range(ps: Seq<Pair>, n: int) -> bool {
    forall|k: int| 0 <= k < ps.len() ==> #[trigger] ps[k].0 < n && ps[k].1 < n && ps[k].0 != ps[k].1
}

/// The scan only pairs instructions it has seen, and never one with itself.
pub proof fn lemma_scan_in_range(kind: PairKind, s: Seq<Instruction>, k: int)
    requires
        0 <= k <= s.len(),
        s.len() <= usize::MAX,
    ensures
        pairs_in_range(scan(kind, s, k).pairs, k),
        forall|a: u32| #[trigger] scan(kind, s, k).firsts.contains_key(a) ==> scan(kind, s, k).firsts[a].0 < k,
        forall|a: u32| #[trigger] scan(kind, s, k).seconds.contains_key(a) ==> scan(kind, s, k).seconds[a].0 < k,
    decreases k,
{
    if k > 0 {
        lemma_scan_in_range(kind, s, k - 1);
        let st = scan(kind, s, k - 1);
        let nx = scan(kind, s, k);
        let i = s[k - 1];
        let idx = (k - 1) as usize;
        assert(nx == scan_step(kind, st, idx, i));
        match member(kind, i) {
            Some((first, dest, arg)) => {
                if first && st.seconds.contains_key(arg) {
                    let e = st.seconds[arg];
                    assert(e.0 < k - 1);
                    assert(nx.pairs == st.pairs.push((idx, e.0, arg, dest, e.1)));
                } else if !first && st.firsts.contains_key(arg) {
                    let e = st.firsts[arg];
                    assert(e.0 < k - 1);
                    assert(nx.pairs == st.pairs.push((e.0, idx, arg, e.1, dest)));
                } else {
                    assert(nx.pairs == st.pairs);
                }
            },
            None => {
                assert(nx.pairs == st.pairs);
            },
        }
        assert forall|q: int| 0 <= q < nx.pairs.len() implies #[trigger] nx.pairs[q].0 < k && nx.pairs[q].1 < k
            && nx.pairs[q].0 != nx.pairs[q].1 by {
            if q < st.pairs.len() {
                assert(nx.pairs[q] == st.pairs[q]);
            }
        }
    }
}

/// Whether each of `ps` joins a first member and a second member of the same
/// argument register, with the result registers it records.
pub open spec fn pairs_match(kind: PairKind, s: Seq<Instruction>, ps: Seq<Pair>) -> bool {
    forall|q: int| 0 <= q < ps.len() ==> {
        let (i, j, arg, d1, d2) = #[trigger] ps[q];
        &&& member(kind, s[i as int]) == Some((true, d1, arg))
        &&& member(kind, s[j as int]) == Some((false, d2, arg))
    }
}

proof fn lemma_scan_matches(kind: PairKind, s: Seq<Instruction>, k: int)
    requires
        0 <= k <= s.len(),
        s.len() <= usize::MAX,
    ensures
        pairs_match(kind, s, scan(kind, s, k).pairs),
        forall|a: u32| #[trigger] scan(kind, s, k).firsts.contains_key(a) ==>
            member(kind, s[scan(kind, s, k).firsts[a].0 as int]) == Some((true, scan(kind, s, k).firsts[a].1, a)),
        forall|a: u32| #[trigger] scan(kind, s, k).seconds.contains_key(a) ==>
            member(kind, s[scan(kind, s, k).seconds[a].0 as int]) == Some((false, scan(kind, s, k).seconds[a].1, a)),
    decreases k,
{
    if k > 0 {
        lemma_scan_matches(kind, s, k - 1);
        let st = scan(kind, s, k - 1);
        let nx = scan(kind, s, k);
        let i = s[k - 1];
        let idx = (k - 1) as usize;
        assert(idx as int == k - 1);
        assert(nx == scan_step(kind, st, idx, i));
        assert forall|q: int| 0 <= q < nx.pairs.len() implies {
            let (a, b, arg, d1, d2) = #[trigger] nx.pairs[q];
            &&& member(kind, s[a as int]) == Some((true, d1, arg))
            &&& member(kind, s[b as int]) == Some((false, d2, arg))
        } by {
            if q < st.pairs.len() {
                assert(nx.pairs[q] == st.pairs[q]);
            }
        }
    }
}

/// Each pair the scan finds joins a first member (`sin`, `asin`) and a second
/// member (`cos`, `acos`) of the same argument register, two distinct
/// instructions of the stream.
pub proof fn law_found_pairs_match(kind: PairKind, s: Seq<Instruction>)
    requires
        s.len() <= usize::MAX,
    ensures
        pairs_in_range(found_pairs(kind, s), s.len() as int),
        pairs_match(kind, s, found_pairs(kind, s)),
{
    lemma_scan_in_range(kind, s, s.len() as int);
    lemma_scan_matches(kind, s, s.len() as int);
}

/// Fuse the pairs `pairs` of `instructions`, as `fuse_pairs` states; whether anything changed.
fn fuse_found(kind: PairKind, instructions: &mut [Instruction], arg_pool: &[u32], pairs: Vec<Pair>) -> (changed: bool)
    requires
        forall|k: int| 0 <= k < old(instructions)@.len() ==> pool_ok(#[trigger] old(instructions)@[k], arg_pool@),
        pairs_in_range(pairs@, old(instructions)@.len() as int),
    ensures
        (final(instructions)@, changed) == fuse_pairs(kind, old(instructions)@, arg_pool@, pairs@, pairs@.len() as int),
{
    let ghost s0 = instructions@;
    let mut changed = false;
    let mut k: usize = 0;
    while k < pairs.len()
        invariant
            k <= pairs@.len(),
            instructions@.len() == s0.len(),
            pairs_in_range(pairs@, s0.len() as int),
            forall|j: int| 0 <= j < instructions@.len() ==> pool_ok(#[trigger] instructions@[j], arg_pool@),
            (instructions@, changed) == fuse_pairs(kind, s0, arg_pool@, pairs@, k as int),
        decreases pairs.len() - k,
    {
        let p = pairs[k];
        let (a_idx, b_idx, arg, d1, d2) = p;
        assert(pairs@[k as int].0 < s0.len() && pairs@[k as int].1 < s0.len() && pairs@[k as int].0 != pairs@[k as int].1);
        let later = if a_idx >= b_idx { a_idx } else { b_idx };
        let earlier = if a_idx <= b_idx { a_idx } else { b_idx };
        let earlier_dest = if earlier == a_idx { d1 } else { d2 };
        let window = &instructions[earlier + 1..later];
        proof {
            assert forall|j: int| 0 <= j < window@.len() implies pool_ok(#[trigger] window@[j], arg_pool@) by {
                assert(window@[j] == instructions@[earlier + 1 + j]);
            }
        }
        let conflict = has_conflict(window, earlier_dest, arg_pool);
        proof {
            let cur = instructions@;
            if conflict {
                let w = choose|w: int| 0 <= w < window@.len() && touches(#[trigger] window@[w], arg_pool@, earlier_dest);
                assert(window@[w] == cur[earlier + 1 + w]);
                assert(touches(cur[earlier + 1 + w], arg_pool@, earlier_dest));
            } else {
                assert forall|j: int| earlier < j < later implies !touches(#[trigger] cur[j], arg_pool@, earlier_dest) by {
                    assert(window@[j - earlier - 1] == cur[j]);
                }
            }
        }
        if !conflict {
            let c = match kind {
                PairKind::SinCos => Instruction::SinCos { sin_dest: d1, cos_dest: d2, arg },
                PairKind::AsinAcos => Instruction::AsinAcos { asin_dest: d1, acos_dest: d2, arg },
            };
            instructions[later] = c;
            instructions[earlier] = Instruction::Copy { dest: earlier_dest, src: earlier_dest };
            changed = true;
        }
        k = k + 1;
    }
    changed
}

/// Fuse the `sin`/`cos` pairs of `instructions`; whether anything changed.
pub fn fuse_sin_cos(instructions: &mut [Instruction], arg_pool: &[u32]) -> (changed: bool)
    requires
        forall|k: int| 0 <= k < old(instructions)@.len() ==> pool_ok(#[trigger] old(instructions)@[k], arg_pool@),
    ensures
        (final(instructions)@, changed) == fuse_pairs(PairKind::SinCos, old(instructions)@, arg_pool@,
            found_pairs(PairKind::SinCos, old(instructions)@), found_pairs(PairKind::SinCos, old(instructions)@).len() as int),
{
    let pairs = find_pairs(PairKind::SinCos, instructions);
    let n = instructions.len();
    proof { lemma_scan_in_range(PairKind::SinCos, instructions@, instructions@.len() as int); }
    fuse_found(PairKind::SinCos, instructions, arg_pool, pairs)
}

/// Fuse the `asin`/`acos` pairs of `instructions`; whether anything changed.
pub fn fuse_asin_acos(instructions: &mut [Instruction], arg_pool: &[u32]) -> (changed: bool)
    requires
        forall|k: int| 0 <= k < old(instructions)@.len() ==> pool_ok(#[trigger] old(instructions)@[k], arg_pool@),
    ensures
        (final(instructions)@, changed) == fuse_pairs(PairKind::AsinAcos, old(instructions)@, arg_pool@,
            found_pairs(PairKind::AsinAcos, old(instructions)@), found_pairs(PairKind::AsinAcos, old(instructions)@).len() as int),
{
    let pairs = find_asin_acos_pairs(instructions);
    let n = instructions.len();
    proof { lemma_scan_in_range(PairKind::AsinAcos, instructions@, instructions@.len() as int); }
    fuse_found(PairKind::AsinAcos, instructions, arg_pool, pairs)
}

} // verus!
