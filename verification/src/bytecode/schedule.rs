//! Greedy list scheduling of instructions over virtual registers.
//!
//! An instruction depends on the instructions that write the temporaries it
//! reads (the last writer of each). Among the instructions whose dependencies
//! are all scheduled, the scheduler takes the one that reads the most
//! temporaries for the last time, the earliest one on ties, which keeps few
//! values alive at once.

use vstd::prelude::*;
use std::collections::HashSet;
use rustc_hash::{FxBuildHasher, FxHashSet};
use super::vir::{VInstruction, VReg, vdest_of, vreads_of};
use super::vir_fusion::read_total;

verus! {

// ---------------------------------------------------------------------------
// Dependencies
// ---------------------------------------------------------------------------

/// The last of the first `k` instructions that writes temporary `t`.
pub open spec fn producer(s: Seq<VInstruction>, t: u32, k: int) -> Option<int>
    decreases k,
{
    if k <= 0 {
        None
    } else if vdest_of(s[k - 1]) == VReg::Temp(t) {
        Some(k - 1)
    } else {
        producer(s, t, k - 1)
    }
}

/// The last of the first `k` instructions that reads temporary `t`.
pub open spec fn last_reader(s: Seq<VInstruction>, t: u32, k: int) -> Option<int>
    decreases k,
{
    if k <= 0 {
        None
    } else if vreads_of(s[k - 1]).contains(VReg::Temp(t)) {
        Some(k - 1)
    } else {
        last_reader(s, t, k - 1)
    }
}

/// The instruction that writes what `r` holds, when `r` is a temporary that
/// some instruction writes.
pub open spec fn prod_of(s: Seq<VInstruction>, r: VReg) -> Option<int> {
    match r {
        VReg::Temp(t) => producer(s, t, s.len() as int),
        _ => None,
    }
}

/// The instructions that instruction `v` depends on through its first `q`
/// operands, each once, in the order of first need.
pub open spec fn dep_list(s: Seq<VInstruction>, v: int, q: int) -> Seq<int>
    decreases q,
{
    if q <= 0 {
        Seq::empty()
    } else {
        let l = dep_list(s, v, q - 1);
        match prod_of(s, vreads_of(s[v])[q - 1]) {
            Some(p) => if l.contains(p) { l } else { l.push(p) },
            None => l,
        }
    }
}

/// The instructions that instruction `v` depends on.
pub open spec fn deps(s: Seq<VInstruction>, v: int) -> Seq<int> {
    dep_list(s, v, vreads_of(s[v]).len() as int)
}

/// How many of its first `q` operands instruction `v` reads for the last
/// time, each written value counted once.
pub open spec fn dying_upto(s: Seq<VInstruction>, v: int, q: int) -> int
    decreases q,
{
    if q <= 0 {
        0
    } else {
        dying_upto(s, v, q - 1) + match vreads_of(s[v])[q - 1] {
            VReg::Temp(t) => match producer(s, t, s.len() as int) {
                Some(p) => if !dep_list(s, v, q - 1).contains(p) && last_reader(s, t, s.len() as int) == Some(v) { 1int } else { 0int },
                None => 0int,
            },
            _ => 0int,
        }
    }
}

/// The priority of instruction `v`: the values it reads for the last time, minus one.
pub open spec fn weight(s: Seq<VInstruction>, v: int) -> int {
    dying_upto(s, v, vreads_of(s[v]).len() as int) - 1
}

/// The instructions among the first `k` that depend on `p`, in order.
pub open spec fn consumers(s: Seq<VInstruction>, p: int, k: int) -> Seq<int>
    decreases k,
{
    if k <= 0 {
        Seq::empty()
    } else if deps(s, k - 1).contains(p) {
        consumers(s, p, k - 1).push(k - 1)
    } else {
        consumers(s, p, k - 1)
    }
}

// ---------------------------------------------------------------------------
// The greedy order
// ---------------------------------------------------------------------------

/// Whether instruction `v` is not yet scheduled and everything it depends on is.
pub open spec fn is_ready(s: Seq<VInstruction>, sched: Seq<int>, v: int) -> bool {
    &&& 0 <= v < s.len()
    &&& !sched.contains(v)
    &&& forall|j: int| 0 <= j < deps(s, v).len() ==> sched.contains(#[trigger] deps(s, v)[j])
}

/// Whether `v` comes before `w`: a higher priority, or the same and an earlier index.
pub open spec fn ranks_before(s: Seq<VInstruction>, v: int, w: int) -> bool {
    weight(s, v) > weight(s, w) || (weight(s, v) == weight(s, w) && v < w)
}

/// Whether `u` is the ready instruction that ranks first.
pub open spec fn is_next(s: Seq<VInstruction>, sched: Seq<int>, u: int) -> bool {
    &&& is_ready(s, sched, u)
    &&& forall|w: int| #[trigger] is_ready(s, sched, w) && w != u ==> ranks_before(s, u, w)
}

/// Whether `sched` is the greedy order of `s`: each instruction the one that
/// ranks first among those ready at its turn, until none is ready.
pub open spec fn greedy_order(s: Seq<VInstruction>, sched: Seq<int>) -> bool {
    &&& forall|k: int| 0 <= k < sched.len() ==> is_next(s, sched.subrange(0, k), #[trigger] sched[k])
    &&& forall|v: int| !is_ready(s, sched, v)
}

/// Whether every temporary that `s` names is below `max_t`.
pub open spec fn temps_below(s: Seq<VInstruction>, max_t: nat) -> bool {
    &&& forall|k: int| 0 <= k < s.len() ==> (#[trigger] vdest_of(s[k]) matches VReg::Temp(t) ==> t < max_t)
    &&& forall|k: int, q: int| 0 <= k < s.len() && 0 <= q < vreads_of(s[k]).len() ==>
            (#[trigger] vreads_of(s[k])[q] matches VReg::Temp(t) ==> t < max_t)
}

/// `Some(i)` as an index, `usize::MAX` for none.
pub open spec fn index_or_max(o: Option<int>) -> usize {
    match o {
        Some(i) => i as usize,
        None => usize::MAX,
    }
}

// ---------------------------------------------------------------------------
// The set of producers seen: an `FxHashSet` behind trusted wrappers
// ---------------------------------------------------------------------------

/// What a set of instruction indices holds.
pub uninterp spec fn index_set(m: HashSet<usize, FxBuildHasher>) -> Set<usize>;

/// The set that holds nothing.
pub open spec fn no_indices() -> Set<usize> {
    Set::empty()
}

/// `FxHashSet::default`: an empty set.
#[verifier::external_body]
fn seen_new() -> (r: FxHashSet<usize>)
    ensures
        index_set(r) == no_indices(),
{
    FxHashSet::default()
}

/// `HashSet::clear`.
#[verifier::external_body]
fn seen_clear(m: &mut FxHashSet<usize>)
    ensures
        index_set(*final(m)) == no_indices(),
{
    m.clear();
}

/// `HashSet::insert`: whether `i` was new.
#[verifier::external_body]
fn seen_insert(m: &mut FxHashSet<usize>, i: usize) -> (fresh: bool)
    ensures
        index_set(*final(m)) == index_set(*old(m)).insert(i),
        fresh == !index_set(*old(m)).contains(i),
{
    m.insert(i)
}

// ---------------------------------------------------------------------------
// The passes that build the dependency graph
// ---------------------------------------------------------------------------

/// For each temporary below `max_t`: the last instruction that writes it
/// and the last that reads it, `usize::MAX` for none.
fn producer_tables(vinstrs: &Vec<VInstruction>, max_t: usize) -> (r: (Vec<usize>, Vec<usize>))
    requires
        temps_below(vinstrs@, max_t as nat),
        vinstrs@.len() <= usize::MAX,
        max_t <= u32::MAX,
    ensures
        r.0@.len() == max_t,
        r.1@.len() == max_t,
        forall|t: int| 0 <= t < max_t ==> #[trigger] r.0@[t] == index_or_max(producer(vinstrs@, t as u32, vinstrs@.len() as int)),
        forall|t: int| 0 <= t < max_t ==> #[trigger] r.1@[t] == index_or_max(last_reader(vinstrs@, t as u32, vinstrs@.len() as int)),
{
    let ghost s = vinstrs@;
    let n = vinstrs.len();
    let mut producer_map: Vec<usize> = Vec::new();
    let mut last_use: Vec<usize> = Vec::new();
    let mut t: usize = 0;
    while t < max_t
        invariant
            t <= max_t,
            producer_map@ =~= Seq::new(t as nat, |q: int| usize::MAX),
            last_use@ =~= Seq::new(t as nat, |q: int| usize::MAX),
        decreases max_t - t,
    {
        producer_map.push(usize::MAX);
        last_use.push(usize::MAX);
        t = t + 1;
    }
    let mut i: usize = 0;
    while i < n
        invariant
            i <= n,
            n == s.len(),
            s == vinstrs@,
            n <= usize::MAX,
            temps_below(s, max_t as nat),
            producer_map@.len() == max_t,
            last_use@.len() == max_t,
            forall|q: int| 0 <= q < max_t ==> #[trigger] producer_map@[q] == index_or_max(producer(s, q as u32, i as int)),
            forall|q: int| 0 <= q < max_t ==> #[trigger] last_use@[q] == index_or_max(last_reader(s, q as u32, i as int)),
            max_t <= u32::MAX + 1,
        decreases n - i,
    {
        let instr = &vinstrs[i];
        if let VReg::Temp(tt) = instr.dest() {
            assert(vdest_of(s[i as int]) matches VReg::Temp(x) ==> x < max_t);
            producer_map.set(tt as usize, i);
        }
        let rs = instr.reads();
        let ghost lu0 = last_use@;
        let mut j: usize = 0;
        while j < rs.len()
            invariant
                j <= rs@.len(),
                i < n,
                n == s.len(),
                rs@ == vreads_of(s[i as int]),
                temps_below(s, max_t as nat),
                last_use@.len() == max_t,
                max_t <= u32::MAX + 1,
                forall|q: int| 0 <= q < max_t ==> #[trigger] last_use@[q]
                    == (if rs@.subrange(0, j as int).contains(VReg::Temp(q as u32)) { i } else { lu0[q] }),
            decreases rs.len() - j,
        {
            proof {
                let a = rs@.subrange(0, j as int);
                let b = rs@.subrange(0, j + 1);
                assert(b =~= a.push(rs@[j as int]));
                assert forall|x: VReg| #[trigger] b.contains(x) <==> (a.contains(x) || x == rs@[j as int]) by {
                    if b.contains(x) {
                        let w = choose|w: int| 0 <= w < b.len() && b[w] == x;
                        if w < j {
                            assert(a[w] == x);
                        }
                    }
                    if a.contains(x) {
                        let w = choose|w: int| 0 <= w < a.len() && a[w] == x;
                        assert(b[w] == x);
                    }
                    if x == rs@[j as int] {
                        assert(b[j as int] == x);
                    }
                }
            }
            if let VReg::Temp(tt) = rs[j] {
                assert(vreads_of(s[i as int])[j as int] matches VReg::Temp(x) ==> x < max_t);
                last_use.set(tt as usize, i);
            }
            j = j + 1;
        }
        proof {
            assert(rs@.subrange(0, rs@.len() as int) =~= rs@);
        }
        i = i + 1;
    }
    (producer_map, last_use)
}

/// The sum of the first `k` entries of `d`.
pub open spec fn psum(d: Seq<usize>, k: int) -> int
    decreases k,
{
    if k <= 0 {
        0
    } else {
        psum(d, k - 1) + d[k - 1]
    }
}

proof fn lemma_psum_bump(d: Seq<usize>, p: int, k: int)
    requires
        0 <= p < d.len(),
        d[p] < usize::MAX,
        0 <= k <= d.len(),
    ensures
        psum(d.update(p, (d[p] + 1) as usize), k) == psum(d, k) + (if p < k { 1int } else { 0int }),
    decreases k,
{
    if k > 0 {
        lemma_psum_bump(d, p, k - 1);
    }
}

proof fn lemma_psum_mono(d: Seq<usize>, j: int, k: int)
    requires
        0 <= j <= k <= d.len(),
    ensures
        psum(d, j) <= psum(d, k),
    decreases k - j,
{
    if j < k {
        lemma_psum_mono(d, j, k - 1);
    }
}

proof fn lemma_read_total_step(s: Seq<VInstruction>, i: int)
    requires
        0 <= i,
    ensures
        read_total(s, i + 1) == read_total(s, i) + vreads_of(s[i]).len(),
{
}

proof fn lemma_read_total_mono2(s: Seq<VInstruction>, j: int, k: int)
    requires
        j <= k,
    ensures
        read_total(s, j) <= read_total(s, k),
    decreases k - j,
{
    if j < k {
        lemma_read_total_mono2(s, j, k - 1);
    }
}

/// Whether every instruction reads fewer registers than `i32::MAX`.
pub open spec fn reads_fit(s: Seq<VInstruction>) -> bool {
    forall|k: int| 0 <= k < s.len() ==> #[trigger] vreads_of(s[k]).len() < i32::MAX
}

/// Whether two tables are the producer and last-reader tables of `s` over `max_t` temporaries.
pub open spec fn tables_of(s: Seq<VInstruction>, max_t: nat, pm: Seq<usize>, lu: Seq<usize>) -> bool {
    &&& pm.len() == max_t
    &&& lu.len() == max_t
    &&& forall|t: int| 0 <= t < max_t ==> #[trigger] pm[t] == index_or_max(producer(s, t as u32, s.len() as int))
    &&& forall|t: int| 0 <= t < max_t ==> #[trigger] lu[t] == index_or_max(last_reader(s, t as u32, s.len() as int))
}

proof fn lemma_producer_below(s: Seq<VInstruction>, t: u32, k: int)
    ensures
        producer(s, t, k) matches Some(p) ==> 0 <= p < k,
    decreases k,
{
    if k > 0 {
        lemma_producer_below(s, t, k - 1);
    }
}

proof fn lemma_last_reader_below(s: Seq<VInstruction>, t: u32, k: int)
    ensures
        last_reader(s, t, k) matches Some(p) ==> 0 <= p < k,
    decreases k,
{
    if k > 0 {
        lemma_last_reader_below(s, t, k - 1);
    }
}

/// For each instruction, how many instructions depend on it, and its priority.
fn degrees_and_weights(vinstrs: &Vec<VInstruction>, producer_map: &Vec<usize>, last_use: &Vec<usize>, max_t: usize)
    -> (r: (Vec<usize>, Vec<i32>))
    requires
        tables_of(vinstrs@, max_t as nat, producer_map@, last_use@),
        temps_below(vinstrs@, max_t as nat),
        max_t <= u32::MAX,
        vinstrs@.len() <= usize::MAX,
        reads_fit(vinstrs@),
        read_total(vinstrs@, vinstrs@.len() as int) <= usize::MAX,
    ensures
        r.0@.len() == vinstrs@.len(),
        forall|p: int| 0 <= p < vinstrs@.len() ==> #[trigger] r.0@[p] == consumers(vinstrs@, p, vinstrs@.len() as int).len(),
        psum(r.0@, vinstrs@.len() as int) <= read_total(vinstrs@, vinstrs@.len() as int),
        r.1@.len() == vinstrs@.len(),
        forall|v: int| 0 <= v < vinstrs@.len() ==> #[trigger] r.1@[v] == weight(vinstrs@, v),
{
    let ghost s = vinstrs@;
    let n = vinstrs.len();
    let mut degree: Vec<usize> = Vec::new();
    let mut weights: Vec<i32> = Vec::new();
    let mut k: usize = 0;
    while k < n
        invariant
            k <= n,
            degree@ =~= Seq::new(k as nat, |q: int| 0usize),
        decreases n - k,
    {
        degree.push(0);
        k = k + 1;
    }
    proof {
        assert(psum(degree@, n as int) == 0) by {
            lemma_psum_zero(degree@, n as int);
        }
    }
    let mut seen = seen_new();
    let mut i: usize = 0;
    while i < n
        invariant
            i <= n,
            n == s.len(),
            s == vinstrs@,
            n <= usize::MAX,
            tables_of(s, max_t as nat, producer_map@, last_use@),
            temps_below(s, max_t as nat),
            max_t <= u32::MAX,
            reads_fit(s),
            read_total(s, n as int) <= usize::MAX,
            degree@.len() == n,
            forall|p: int| 0 <= p < n ==> #[trigger] degree@[p] == consumers(s, p, i as int).len(),
            psum(degree@, n as int) <= read_total(s, i as int),
            weights@.len() == i,
            forall|v: int| 0 <= v < i ==> #[trigger] weights@[v] == weight(s, v),
        decreases n - i,
    {
        seen_clear(&mut seen);
        let mut dying: i32 = 0;
        let rs = vinstrs[i].reads();
        proof {
            lemma_read_total_step(s, i as int);
            lemma_read_total_mono2(s, i + 1, n as int);
        }
        let mut q: usize = 0;
        while q < rs.len()
            invariant
                q <= rs@.len(),
                i < n,
                n == s.len(),
                n <= usize::MAX,
                rs@ == vreads_of(s[i as int]),
                rs@.len() < i32::MAX,
                tables_of(s, max_t as nat, producer_map@, last_use@),
                temps_below(s, max_t as nat),
                max_t <= u32::MAX,
                read_total(s, i + 1) <= usize::MAX,
                degree@.len() == n,
                forall|x: usize| #[trigger] index_set(seen).contains(x) <==> dep_list(s, i as int, q as int).contains(x as int),
                forall|x: int| #[trigger] dep_list(s, i as int, q as int).contains(x) ==> 0 <= x < n,
                dep_list(s, i as int, q as int).len() <= q,
                dying == dying_upto(s, i as int, q as int),
                0 <= dying <= q,
                forall|p: int| 0 <= p < n ==> #[trigger] degree@[p]
                    == consumers(s, p, i as int).len() + (if dep_list(s, i as int, q as int).contains(p) { 1int } else { 0int }),
                psum(degree@, n as int) <= read_total(s, i as int) + q,
            decreases rs.len() - q,
        {
            let r = rs[q];
            let ghost l = dep_list(s, i as int, q as int);
            let ghost l2 = dep_list(s, i as int, q + 1);
            if let VReg::Temp(t) = r {
                assert(vreads_of(s[i as int])[q as int] matches VReg::Temp(x) ==> x < max_t);
                let p = producer_map[t as usize];
                proof {
                    lemma_producer_below(s, t, n as int);
                }
                if p != usize::MAX {
                    let fresh = seen_insert(&mut seen, p);
                    if fresh {
                        proof {
                            assert(!l.contains(p as int));
                            assert(dep_list(s, i as int, q + 1) == l.push(p as int));
                            assert(degree@[p as int] <= psum(degree@, n as int)) by {
                                lemma_psum_mono(degree@, p as int + 1, n as int);
                                lemma_psum_nonneg(degree@, p as int);
                            }
                            assert(degree@[p as int] < usize::MAX);
                            lemma_psum_bump(degree@, p as int, n as int);
                        }
                        let dp = degree[p];
                        degree.set(p, dp + 1);
                        proof {
                            lemma_last_reader_below(s, t, n as int);
                        }
                        if last_use[t as usize] == i {
                            dying = dying + 1;
                        }
                        proof {
                            assert forall|x: usize| #[trigger] index_set(seen).contains(x) <==> dep_list(s, i as int, q + 1).contains(x as int) by {
                                if x == p {
                                    assert(dep_list(s, i as int, q + 1)[l.len() as int] == p as int);
                                } else {
                                    if dep_list(s, i as int, q + 1).contains(x as int) {
                                        let w = choose|w: int| 0 <= w < l2.len() && l2[w] == x as int;
                                        assert(l[w] == x as int);
                                    }
                                    if l.contains(x as int) {
                                        let w = choose|w: int| 0 <= w < l.len() && l[w] == x as int;
                                        assert(dep_list(s, i as int, q + 1)[w] == x as int);
                                    }
                                }
                            }
                            assert forall|x: int| #[trigger] dep_list(s, i as int, q + 1).contains(x) implies 0 <= x < n by {
                                let w = choose|w: int| 0 <= w < l2.len() && l2[w] == x;
                                if w < l.len() {
                                    assert(l[w] == x);
                                    assert(l.contains(x));
                                }
                            }
                            assert forall|pp: int| 0 <= pp < n implies #[trigger] degree@[pp]
                                == consumers(s, pp, i as int).len() + (if dep_list(s, i as int, q + 1).contains(pp) { 1int } else { 0int }) by {
                                if pp == p as int {
                                    assert(dep_list(s, i as int, q + 1)[l.len() as int] == pp);
                                } else {
                                    if dep_list(s, i as int, q + 1).contains(pp) {
                                        let w = choose|w: int| 0 <= w < l2.len() && l2[w] == pp;
                                        assert(l[w] == pp);
                                    }
                                    if l.contains(pp) {
                                        let w = choose|w: int| 0 <= w < l.len() && l[w] == pp;
                                        assert(dep_list(s, i as int, q + 1)[w] == pp);
                                    }
                                }
                            }
                        }
                    } else {
                        proof {
                            assert(l.contains(p as int));
                        }
                    }
                }
            }
            q = q + 1;
        }
        weights.push(dying - 1);
        proof {
            assert forall|p: int| 0 <= p < n implies #[trigger] degree@[p] == consumers(s, p, i + 1).len() by {}
            assert forall|v: int| 0 <= v < i + 1 implies #[trigger] weights@[v] == weight(s, v) by {
                if v < i {
                }
            }
        }
        i = i + 1;
    }
    (degree, weights)
}

proof fn lemma_psum_zero(d: Seq<usize>, k: int)
    requires
        0 <= k <= d.len(),
        forall|q: int| 0 <= q < d.len() ==> d[q] == 0,
    ensures
        psum(d, k) == 0,
    decreases k,
{
    if k > 0 {
        lemma_psum_zero(d, k - 1);
    }
}

proof fn lemma_psum_nonneg(d: Seq<usize>, k: int)
    ensures
        psum(d, k) >= 0,
    decreases k,
{
    if k > 0 {
        lemma_psum_nonneg(d, k - 1);
    }
}

/// Where each instruction's list of dependents starts: the running sums of
/// the degrees, then the total.
fn prefix_offsets(degree: &Vec<usize>, bound: Ghost<int>) -> (offsets: Vec<usize>)
    requires
        psum(degree@, degree@.len() as int) <= bound@,
        bound@ <= usize::MAX,
    ensures
        offsets@.len() == degree@.len() + 1,
        forall|i: int| 0 <= i <= degree@.len() ==> #[trigger] offsets@[i] == psum(degree@, i),
{
    let n = degree.len();
    let mut offsets: Vec<usize> = Vec::new();
    offsets.push(0);
    let mut i: usize = 0;
    while i < n
        invariant
            i <= n,
            n == degree@.len(),
            psum(degree@, n as int) <= bound@,
            bound@ <= usize::MAX,
            offsets@.len() == i + 1,
            forall|q: int| 0 <= q <= i ==> #[trigger] offsets@[q] == psum(degree@, q),
        decreases n - i,
    {
        proof {
            lemma_psum_mono(degree@, i + 1, n as int);
        }
        let next = offsets[i] + degree[i];
        offsets.push(next);
        i = i + 1;
    }
    offsets
}

proof fn lemma_consumers_prefix(s: Seq<VInstruction>, p: int, k: int, m: int)
    requires
        0 <= k <= m,
    ensures
        consumers(s, p, k).len() <= consumers(s, p, m).len(),
        forall|j: int| 0 <= j < consumers(s, p, k).len() ==> #[trigger] consumers(s, p, m)[j] == consumers(s, p, k)[j],
    decreases m - k,
{
    if k < m {
        lemma_consumers_prefix(s, p, k, m - 1);
    }
}

proof fn lemma_consumers_below(s: Seq<VInstruction>, p: int, k: int)
    ensures
        forall|j: int| 0 <= j < consumers(s, p, k).len() ==> 0 <= #[trigger] consumers(s, p, k)[j] < k,
        consumers(s, p, k).len() <= if k < 0 { 0 } else { k },
    decreases k,
{
    if k > 0 {
        lemma_consumers_below(s, p, k - 1);
    }
}

/// Whether `pm` is the producer table of `s` over `max_t` temporaries.
pub open spec fn producer_table(s: Seq<VInstruction>, max_t: nat, pm: Seq<usize>) -> bool {
    &&& pm.len() == max_t
    &&& forall|t: int| 0 <= t < max_t ==> #[trigger] pm[t] == index_or_max(producer(s, t as u32, s.len() as int))
}

/// Whether `edges` lists, in the range of each instruction that `offsets`
/// gives, the instructions that depend on it, in order.
pub open spec fn edges_of(s: Seq<VInstruction>, offsets: Seq<usize>, edges: Seq<u32>) -> bool {
    forall|p: int, j: int| 0 <= p < s.len() && 0 <= j < consumers(s, p, s.len() as int).len() ==>
        offsets[p] + j < edges.len() && #[trigger] edges[offsets[p] + j] == consumers(s, p, s.len() as int)[j]
}

/// The dependents of each instruction, listed one range per instruction, and
/// how many instructions each depends on.
#[verifier::spinoff_prover]
fn fill_edges(vinstrs: &Vec<VInstruction>, producer_map: &Vec<usize>, degree: &Vec<usize>, offsets: &Vec<usize>, max_t: usize)
    -> (r: (Vec<u32>, Vec<u32>))
    requires
        producer_table(vinstrs@, max_t as nat, producer_map@),
        temps_below(vinstrs@, max_t as nat),
        max_t <= u32::MAX,
        vinstrs@.len() <= u32::MAX,
        reads_fit(vinstrs@),
        degree@.len() == vinstrs@.len(),
        forall|p: int| 0 <= p < vinstrs@.len() ==> #[trigger] degree@[p] == consumers(vinstrs@, p, vinstrs@.len() as int).len(),
        offsets@.len() == vinstrs@.len() + 1,
        forall|i: int| 0 <= i <= vinstrs@.len() ==> #[trigger] offsets@[i] == psum(degree@, i),
    ensures
        r.0@.len() == offsets@[vinstrs@.len() as int],
        edges_of(vinstrs@, offsets@, r.0@),
        r.1@.len() == vinstrs@.len(),
        forall|v: int| 0 <= v < vinstrs@.len() ==> #[trigger] r.1@[v] == deps(vinstrs@, v).len(),
{
    let ghost s = vinstrs@;
    let n = vinstrs.len();
    let total_edges = offsets[n];
    let mut edges: Vec<u32> = Vec::new();
    let mut e: usize = 0;
    while e < total_edges
        invariant
            e <= total_edges,
            edges@.len() == e,
        decreases total_edges - e,
    {
        edges.push(0);
        e = e + 1;
    }
    let mut cursor: Vec<usize> = Vec::new();
    let mut in_degree: Vec<u32> = Vec::new();
    let mut k: usize = 0;
    while k < n
        invariant
            k <= n,
            n + 1 == offsets@.len(),
            cursor@ =~= offsets@.subrange(0, k as int),
            in_degree@ =~= Seq::new(k as nat, |q: int| 0u32),
        decreases n - k,
    {
        cursor.push(offsets[k]);
        in_degree.push(0);
        k = k + 1;
    }
    proof {
        assert forall|p: int| 0 <= p < n implies offsets@[p] + degree@[p] == offsets@[p + 1] by {}
        assert forall|a: int, b: int| 0 <= a <= b <= n implies offsets@[a] <= offsets@[b] by {
            lemma_psum_mono(degree@, a, b);
        }
    }
    let mut seen = seen_new();
    let mut v: usize = 0;
    while v < n
        invariant
            v <= n,
            n == s.len(),
            s == vinstrs@,
            n <= u32::MAX,
            producer_table(s, max_t as nat, producer_map@),
            temps_below(s, max_t as nat),
            max_t <= u32::MAX,
            reads_fit(s),
            degree@.len() == n,
            forall|p: int| 0 <= p < n ==> #[trigger] degree@[p] == consumers(s, p, n as int).len(),
            offsets@.len() == n + 1,
            forall|p: int| 0 <= p < n ==> offsets@[p] + degree@[p] == offsets@[p + 1],
            forall|a: int, b: int| 0 <= a <= b <= n ==> offsets@[a] <= offsets@[b],
            total_edges == offsets@[n as int],
            edges@.len() == total_edges,
            cursor@.len() == n,
            forall|p: int| 0 <= p < n ==> #[trigger] cursor@[p] == offsets@[p] + consumers(s, p, v as int).len(),
            forall|p: int, j: int| 0 <= p < n && 0 <= j < consumers(s, p, v as int).len() ==>
                #[trigger] edges@[offsets@[p] + j] == consumers(s, p, n as int)[j],
            in_degree@.len() == n,
            forall|w: int| 0 <= w < v ==> #[trigger] in_degree@[w] == deps(s, w).len(),
            forall|w: int| v <= w < n ==> #[trigger] in_degree@[w] == 0,
        decreases n - v,
    {
        seen_clear(&mut seen);
        let rs = vinstrs[v].reads();
        let mut q: usize = 0;
        while q < rs.len()
            invariant
                q <= rs@.len(),
                v < n,
                n == s.len(),
                n <= u32::MAX,
                rs@ == vreads_of(s[v as int]),
                rs@.len() < i32::MAX,
                producer_table(s, max_t as nat, producer_map@),
                temps_below(s, max_t as nat),
                max_t <= u32::MAX,
                degree@.len() == n,
                forall|p: int| 0 <= p < n ==> #[trigger] degree@[p] == consumers(s, p, n as int).len(),
                offsets@.len() == n + 1,
                forall|p: int| 0 <= p < n ==> offsets@[p] + degree@[p] == offsets@[p + 1],
                forall|a: int, b: int| 0 <= a <= b <= n ==> offsets@[a] <= offsets@[b],
                total_edges == offsets@[n as int],
                edges@.len() == total_edges,
                cursor@.len() == n,
                forall|x: usize| #[trigger] index_set(seen).contains(x) <==> dep_list(s, v as int, q as int).contains(x as int),
                forall|x: int| #[trigger] dep_list(s, v as int, q as int).contains(x) ==> 0 <= x < n,
                dep_list(s, v as int, q as int).len() <= q,
                forall|p: int| 0 <= p < n ==> #[trigger] cursor@[p] == offsets@[p] + consumers(s, p, v as int).len()
                    + (if dep_list(s, v as int, q as int).contains(p) { 1int } else { 0int }),
                forall|p: int, j: int| 0 <= p < n && 0 <= j < consumers(s, p, v as int).len()
                    + (if dep_list(s, v as int, q as int).contains(p) { 1int } else { 0int }) ==>
                    #[trigger] edges@[offsets@[p] + j] == consumers(s, p, n as int)[j],
                in_degree@.len() == n,
                forall|w: int| 0 <= w < v ==> #[trigger] in_degree@[w] == deps(s, w).len(),
                forall|w: int| v < w < n ==> #[trigger] in_degree@[w] == 0,
                in_degree@[v as int] == dep_list(s, v as int, q as int).len(),
            decreases rs.len() - q,
        {
            let ghost l = dep_list(s, v as int, q as int);
            let ghost l2 = dep_list(s, v as int, q + 1);
            if let VReg::Temp(t) = rs[q] {
                assert(vreads_of(s[v as int])[q as int] matches VReg::Temp(x) ==> x < max_t);
                let p = producer_map[t as usize];
                proof {
                    lemma_producer_below(s, t, n as int);
                }
                if p != usize::MAX {
                    let fresh = seen_insert(&mut seen, p);
                    if fresh {
                        proof {
                            assert(!l.contains(p as int));
                            assert(l2 == l.push(p as int));
                            lemma_record_edge(s, v as int, q as int, p as int, offsets@, degree@, cursor@, edges@);
                        }
                        let slot = cursor[p];
                        edges.set(slot, v as u32);
                        cursor.set(p, slot + 1);
                        let d = in_degree[v];
                        in_degree.set(v, d + 1);
                        proof {
                            assert forall|x: usize| #[trigger] index_set(seen).contains(x) <==> l2.contains(x as int) by {
                                if x == p {
                                    assert(l2[l.len() as int] == p as int);
                                } else {
                                    if l2.contains(x as int) {
                                        let w = choose|w: int| 0 <= w < l2.len() && l2[w] == x as int;
                                        assert(l[w] == x as int);
                                    }
                                    if l.contains(x as int) {
                                        let w = choose|w: int| 0 <= w < l.len() && l[w] == x as int;
                                        assert(l2[w] == x as int);
                                    }
                                }
                            }
                            assert forall|x: int| #[trigger] l2.contains(x) implies 0 <= x < n by {
                                let w = choose|w: int| 0 <= w < l2.len() && l2[w] == x;
                                if w < l.len() {
                                    assert(l[w] == x);
                                    assert(l.contains(x));
                                }
                            }
                        }
                    } else {
                        proof {
                            assert(l.contains(p as int));
                            assert(l2 == l);
                        }
                    }
                } else {
                    proof {
                        assert(l2 == l);
                    }
                }
            } else {
                proof {
                    assert(l2 == l);
                }
            }
            q = q + 1;
        }
        proof {
            assert forall|p: int| 0 <= p < n implies #[trigger] cursor@[p] == offsets@[p] + consumers(s, p, v + 1).len() by {}
        }
        v = v + 1;
    }
    proof {
        assert forall|p: int, j: int| 0 <= p < s.len() && 0 <= j < consumers(s, p, s.len() as int).len() implies
            offsets@[p] + j < edges@.len() && #[trigger] edges@[offsets@[p] + j] == consumers(s, p, s.len() as int)[j] by {
            assert(degree@[p] == consumers(s, p, n as int).len());
            assert(offsets@[p] + degree@[p] == offsets@[p + 1]);
            assert(offsets@[p + 1] <= offsets@[n as int]);
        }
        assert(edges_of(s, offsets@, edges@));
    }
    (edges, in_degree)
}

/// Recording `v` as the next dependent of `p`, a producer that `v` reads
/// through operand `q` and not before, keeps the cursors and the filled
/// ranges in step.
proof fn lemma_record_edge(s: Seq<VInstruction>, v: int, q: int, p: int, offsets: Seq<usize>,
    degree: Seq<usize>, cur0: Seq<usize>, e0: Seq<u32>)
    requires
        s.len() <= u32::MAX,
        0 <= v < s.len(),
        0 <= p < s.len(),
        0 <= q < vreads_of(s[v]).len(),
        !dep_list(s, v, q).contains(p),
        dep_list(s, v, q + 1) == dep_list(s, v, q).push(p),
        degree.len() == s.len(),
        forall|pp: int| 0 <= pp < s.len() ==> #[trigger] degree[pp] == consumers(s, pp, s.len() as int).len(),
        offsets.len() == s.len() + 1,
        forall|pp: int| 0 <= pp < s.len() ==> offsets[pp] + degree[pp] == offsets[pp + 1],
        forall|a: int, b: int| 0 <= a <= b <= s.len() ==> offsets[a] <= offsets[b],
        e0.len() == offsets[s.len() as int],
        cur0.len() == s.len(),
        forall|pp: int| 0 <= pp < s.len() ==> #[trigger] cur0[pp] == offsets[pp] + consumers(s, pp, v).len()
            + (if dep_list(s, v, q).contains(pp) { 1int } else { 0int }),
        forall|pp: int, j: int| 0 <= pp < s.len() && 0 <= j < consumers(s, pp, v).len()
            + (if dep_list(s, v, q).contains(pp) { 1int } else { 0int }) ==>
            #[trigger] e0[offsets[pp] + j] == consumers(s, pp, s.len() as int)[j],
    ensures
        cur0[p] < e0.len(),
        cur0[p] + 1 <= usize::MAX,
        forall|pp: int| 0 <= pp < s.len() ==> #[trigger] cur0.update(p, (cur0[p] + 1) as usize)[pp]
            == offsets[pp] + consumers(s, pp, v).len() + (if dep_list(s, v, q + 1).contains(pp) { 1int } else { 0int }),
        forall|pp: int, j: int| 0 <= pp < s.len() && 0 <= j < consumers(s, pp, v).len()
            + (if dep_list(s, v, q + 1).contains(pp) { 1int } else { 0int }) ==>
            #[trigger] e0.update(cur0[p] as int, v as u32)[offsets[pp] + j] == consumers(s, pp, s.len() as int)[j],
{
    let n = s.len() as int;
    let l = dep_list(s, v, q);
    let l2 = dep_list(s, v, q + 1);
    let slot = cur0[p] as int;
    let e1 = e0.update(slot, v as u32);
    assert(l2.contains(p)) by {
        assert(l2[l.len() as int] == p);
    }
    assert(deps(s, v).contains(p)) by {
        lemma_dep_list_grows(s, v, q + 1, vreads_of(s[v]).len() as int);
    }
    assert(consumers(s, p, v + 1) == consumers(s, p, v).push(v));
    lemma_consumers_prefix(s, p, v + 1, n);
    assert(consumers(s, p, n)[consumers(s, p, v).len() as int] == v);
    assert(slot == offsets[p] + consumers(s, p, v).len());
    assert(degree[p] == consumers(s, p, n).len());
    assert(offsets[p] + degree[p] == offsets[p + 1]);
    assert(slot < offsets[p + 1]);
    assert(offsets[p + 1] <= offsets[n]);
    assert forall|pp: int| pp != p implies #[trigger] l2.contains(pp) == l.contains(pp) by {
        if l2.contains(pp) {
            let w = choose|w: int| 0 <= w < l2.len() && l2[w] == pp;
            assert(l[w] == pp);
        }
        if l.contains(pp) {
            let w = choose|w: int| 0 <= w < l.len() && l[w] == pp;
            assert(l2[w] == pp);
        }
    }
    assert forall|pp: int, j: int| 0 <= pp < n && 0 <= j < consumers(s, pp, v).len()
        + (if l2.contains(pp) { 1int } else { 0int }) implies
        #[trigger] e1[offsets[pp] + j] == consumers(s, pp, n)[j] by {
        if pp == p {
            if j < consumers(s, pp, v).len() {
                assert(offsets[pp] + j != slot);
            } else {
                assert(offsets[pp] + j == slot);
            }
        } else {
            let c = consumers(s, pp, v).len() + (if l.contains(pp) { 1int } else { 0int });
            assert(c <= degree[pp]) by {
                if l.contains(pp) {
                    lemma_dep_list_grows(s, v, q, vreads_of(s[v]).len() as int);
                    assert(deps(s, v).contains(pp));
                    assert(consumers(s, pp, v + 1) == consumers(s, pp, v).push(v));
                    lemma_consumers_prefix(s, pp, v + 1, n);
                } else {
                    lemma_consumers_prefix(s, pp, v, n);
                }
            }
            if pp < p {
                assert(offsets[pp + 1] <= offsets[p]);
            } else {
                assert(offsets[p + 1] <= offsets[pp]);
            }
            assert(offsets[pp] + j != slot);
        }
    }
}

/// Dependencies found through the first `q` operands stay among those found
/// through more.
proof fn lemma_dep_list_grows(s: Seq<VInstruction>, v: int, q: int, m: int)
    requires
        0 <= q <= m,
    ensures
        forall|x: int| #[trigger] dep_list(s, v, q).contains(x) ==> dep_list(s, v, m).contains(x),
    decreases m - q,
{
    if q < m {
        lemma_dep_list_grows(s, v, q, m - 1);
        assert forall|x: int| #[trigger] dep_list(s, v, m - 1).contains(x) implies dep_list(s, v, m).contains(x) by {
            let l = dep_list(s, v, m - 1);
            let w = choose|w: int| 0 <= w < l.len() && l[w] == x;
            assert(dep_list(s, v, m)[w] == x);
        }
    }
}

// ---------------------------------------------------------------------------
// The ready queue
// ---------------------------------------------------------------------------

/// The queue entry of instruction `v`: its priority, its negated index, and
/// the index; the largest entry is served first.
pub open spec fn entry_of(s: Seq<VInstruction>, v: int) -> (i32, i64, usize) {
    (weight(s, v) as i32, (-v) as i64, v as usize)
}

/// Whether the queue holds exactly the entries of the instructions of `set`, each once.
pub open spec fn queue_is(s: Seq<VInstruction>, pq: Seq<(i32, i64, usize)>, set: Set<int>) -> bool {
    &&& forall|j: int| 0 <= j < pq.len() ==> #[trigger] pq[j] == entry_of(s, pq[j].2 as int) && set.contains(pq[j].2 as int)
    &&& forall|v: int| #[trigger] set.contains(v) ==> exists|j: int| 0 <= j < pq.len() && #[trigger] pq[j].2 == v
    &&& forall|i: int, j: int| 0 <= i < j < pq.len() ==> #[trigger] pq[i].2 != #[trigger] pq[j].2
}

/// Takes the entry that ranks first out of the queue.
fn pop_best(pq: &mut Vec<(i32, i64, usize)>, s: Ghost<Seq<VInstruction>>) -> (u: usize)
    requires
        old(pq)@.len() > 0,
        forall|j: int| 0 <= j < old(pq)@.len() ==> #[trigger] old(pq)@[j] == entry_of(s@, old(pq)@[j].2 as int),
        forall|j: int| 0 <= j < old(pq)@.len() ==> 0 <= #[trigger] old(pq)@[j].2 < s@.len() <= u32::MAX,
        forall|j: int| 0 <= j < old(pq)@.len() ==> i32::MIN <= weight(s@, #[trigger] old(pq)@[j].2 as int) <= i32::MAX,
        forall|i: int, j: int| 0 <= i < j < old(pq)@.len() ==> #[trigger] old(pq)@[i].2 != #[trigger] old(pq)@[j].2,
    ensures
        exists|b: int| 0 <= b < old(pq)@.len() && old(pq)@[b].2 == u
            && final(pq)@ == old(pq)@.update(b, old(pq)@.last()).drop_last(),
        forall|j: int| 0 <= j < old(pq)@.len() && old(pq)@[j].2 != u ==> ranks_before(s@, u as int, #[trigger] old(pq)@[j].2 as int),
{
    let ghost q0 = pq@;
    let mut best: usize = 0;
    let mut j: usize = 1;
    while j < pq.len()
        invariant
            q0 == pq@,
            1 <= j <= q0.len(),
            best < j,
            forall|k: int| 0 <= k < q0.len() ==> #[trigger] q0[k] == entry_of(s@, q0[k].2 as int),
            forall|k: int| 0 <= k < q0.len() ==> 0 <= #[trigger] q0[k].2 < s@.len() <= u32::MAX,
            forall|k: int| 0 <= k < q0.len() ==> i32::MIN <= weight(s@, #[trigger] q0[k].2 as int) <= i32::MAX,
            forall|a: int, b: int| 0 <= a < b < q0.len() ==> #[trigger] q0[a].2 != #[trigger] q0[b].2,
            forall|k: int| 0 <= k < j && k != best ==> ranks_before(s@, q0[best as int].2 as int, #[trigger] q0[k].2 as int),
        decreases q0.len() - j,
    {
        let c = pq[j];
        let b = pq[best];
        proof {
            assert(q0[j as int] == entry_of(s@, q0[j as int].2 as int));
            assert(q0[best as int] == entry_of(s@, q0[best as int].2 as int));
        }
        if c.0 > b.0 || (c.0 == b.0 && c.1 > b.1) {
            proof {
                assert forall|k: int| 0 <= k < j + 1 && k != j implies ranks_before(s@, q0[j as int].2 as int, #[trigger] q0[k].2 as int) by {
                    if k != best as int {
                        assert(ranks_before(s@, q0[best as int].2 as int, q0[k].2 as int));
                        assert(q0[k] == entry_of(s@, q0[k].2 as int));
                    }
                }
            }
            best = j;
        } else {
            proof {
                assert(q0[best as int].2 != q0[j as int].2);
            }
        }
        j = j + 1;
    }
    let e = pq.swap_remove(best);
    proof {
        assert forall|k: int| 0 <= k < q0.len() && q0[k].2 != e.2 implies ranks_before(s@, e.2 as int, #[trigger] q0[k].2 as int) by {
            if k == best as int {
            }
        }
    }
    e.2
}

// ---------------------------------------------------------------------------
// The scheduler
// ---------------------------------------------------------------------------

/// The instructions of `s` in the order `sched`.
pub open spec fn in_order(s: Seq<VInstruction>, sched: Seq<int>) -> Seq<VInstruction> {
    sched.map_values(|i: int| s[i])
}

/// How many entries of `d` are not in `sched`.
pub open spec fn unscheduled(d: Seq<int>, sched: Seq<int>) -> nat
    decreases d.len(),
{
    if d.len() == 0 {
        0
    } else {
        unscheduled(d.drop_last(), sched) + (if sched.contains(d.last()) { 0nat } else { 1nat })
    }
}

/// The instructions ready after `sched`.
pub open spec fn ready_set(s: Seq<VInstruction>, sched: Seq<int>) -> Set<int> {
    Set::new(|v: int| is_ready(s, sched, v))
}

/// How many entries of `o` hold something.
pub open spec fn somes<T>(o: Seq<Option<T>>) -> nat
    decreases o.len(),
{
    if o.len() == 0 {
        0
    } else {
        somes(o.drop_last()) + (if o.last() is Some { 1nat } else { 0nat })
    }
}

proof fn lemma_somes_take<T>(o: Seq<Option<T>>, i: int)
    requires
        0 <= i < o.len(),
        o[i] is Some,
    ensures
        somes(o.update(i, None)) + 1 == somes(o),
    decreases o.len(),
{
    if i < o.len() - 1 {
        lemma_somes_take(o.drop_last(), i);
        assert(o.update(i, None).drop_last() =~= o.drop_last().update(i, None));
    } else {
        assert(o.update(i, None).drop_last() =~= o.drop_last());
    }
}

proof fn lemma_unscheduled_zero(d: Seq<int>, sched: Seq<int>)
    ensures
        unscheduled(d, sched) == 0 <==> forall|j: int| 0 <= j < d.len() ==> sched.contains(#[trigger] d[j]),
    decreases d.len(),
{
    if d.len() > 0 {
        lemma_unscheduled_zero(d.drop_last(), sched);
        if forall|j: int| 0 <= j < d.len() ==> sched.contains(#[trigger] d[j]) {
            assert forall|j: int| 0 <= j < d.drop_last().len() implies sched.contains(#[trigger] d.drop_last()[j]) by {
                assert(d.drop_last()[j] == d[j]);
            }
            assert(sched.contains(d[d.len() - 1]));
        }
        if unscheduled(d, sched) == 0 {
            assert forall|j: int| 0 <= j < d.len() implies sched.contains(#[trigger] d[j]) by {
                if j < d.len() - 1 {
                    assert(d.drop_last()[j] == d[j]);
                }
            }
        }
    }
}

proof fn lemma_unscheduled_push(d: Seq<int>, sched: Seq<int>, u: int)
    requires
        !sched.contains(u),
        d.no_duplicates(),
    ensures
        unscheduled(d, sched.push(u)) + (if d.contains(u) { 1int } else { 0int }) == unscheduled(d, sched),
    decreases d.len(),
{
    if d.len() > 0 {
        let dl = d.drop_last();
        assert(dl.no_duplicates());
        lemma_unscheduled_push(dl, sched, u);
        assert(sched.push(u).contains(d.last()) == (sched.contains(d.last()) || d.last() == u)) by {
            if sched.push(u).contains(d.last()) {
                let w = choose|w: int| 0 <= w < sched.push(u).len() && sched.push(u)[w] == d.last();
                if w < sched.len() {
                    assert(sched[w] == d.last());
                }
            }
            if sched.contains(d.last()) {
                let w = choose|w: int| 0 <= w < sched.len() && sched[w] == d.last();
                assert(sched.push(u)[w] == d.last());
            }
            if d.last() == u {
                assert(sched.push(u)[sched.len() as int] == u);
            }
        }
        assert(d.contains(u) == (dl.contains(u) || d.last() == u)) by {
            if d.contains(u) {
                let w = choose|w: int| 0 <= w < d.len() && d[w] == u;
                if w < d.len() - 1 {
                    assert(dl[w] == u);
                }
            }
            if dl.contains(u) {
                let w = choose|w: int| 0 <= w < dl.len() && dl[w] == u;
                assert(d[w] == u);
            }
        }
        if d.last() == u {
            assert(!dl.contains(u)) by {
                if dl.contains(u) {
                    let w = choose|w: int| 0 <= w < dl.len() && dl[w] == u;
                    assert(d[w] == d[d.len() - 1]);
                }
            }
        }
    }
}

proof fn lemma_dep_list_distinct(s: Seq<VInstruction>, v: int, q: int)
    ensures
        dep_list(s, v, q).no_duplicates(),
    decreases q,
{
    if q > 0 {
        lemma_dep_list_distinct(s, v, q - 1);
    }
}

proof fn lemma_consumers_distinct(s: Seq<VInstruction>, p: int, k: int)
    ensures
        consumers(s, p, k).no_duplicates(),
        forall|j: int| 0 <= j < consumers(s, p, k).len() ==> 0 <= #[trigger] consumers(s, p, k)[j] < k,
        forall|w: int| 0 <= w < k ==> (consumers(s, p, k).contains(w) <==> deps(s, w).contains(p)),
    decreases k,
{
    if k > 0 {
        lemma_consumers_distinct(s, p, k - 1);
        let c = consumers(s, p, k - 1);
        if deps(s, k - 1).contains(p) {
            let c2 = c.push(k - 1);
            assert forall|w: int| 0 <= w < k implies (c2.contains(w) <==> deps(s, w).contains(p)) by {
                if c2.contains(w) {
                    let i = choose|i: int| 0 <= i < c2.len() && c2[i] == w;
                    if i < c.len() {
                        assert(c[i] == w);
                    }
                }
                if w < k - 1 && c.contains(w) {
                    let i = choose|i: int| 0 <= i < c.len() && c[i] == w;
                    assert(c2[i] == w);
                }
                if w == k - 1 {
                    assert(c2[c.len() as int] == w);
                }
            }
        }
    }
}

/// Whether the priorities of `s` fit in `i32`.
proof fn lemma_weight_bounds(s: Seq<VInstruction>, v: int, q: int)
    requires
        0 <= q,
    ensures
        0 <= dying_upto(s, v, q) <= q,
    decreases q,
{
    if q > 0 {
        lemma_weight_bounds(s, v, q - 1);
    }
}

/// An instruction that depends on nothing unscheduled has nothing left to wait for.
proof fn lemma_unscheduled_none(d: Seq<int>)
    ensures
        unscheduled(d, Seq::empty()) == d.len(),
    decreases d.len(),
{
    if d.len() > 0 {
        lemma_unscheduled_none(d.drop_last());
    }
}

/// Once `u` is scheduled, the ready instructions are those ready before,
/// but `u`, and those that waited on `u` alone.
proof fn lemma_ready_after_push(s: Seq<VInstruction>, old_sched: Seq<int>, u: int)
    requires
        is_ready(s, old_sched, u),
    ensures
        forall|w: int| (#[trigger] is_ready(s, old_sched.push(u), w) && !consumers(s, u, s.len() as int).contains(w))
            <==> (is_ready(s, old_sched, w) && w != u),
{
    broadcast use vstd::seq_lib::lemma_seq_contains_after_push;
    let n = s.len() as int;
    let cu = consumers(s, u, n);
    lemma_consumers_distinct(s, u, n);
    let sched = old_sched.push(u);
    assert forall|w: int| (#[trigger] is_ready(s, sched, w) && !cu.contains(w)) <==> (is_ready(s, old_sched, w) && w != u) by {
        if is_ready(s, sched, w) && !cu.contains(w) {
            assert(!deps(s, w).contains(u));
            assert forall|j: int| 0 <= j < deps(s, w).len() implies old_sched.contains(#[trigger] deps(s, w)[j]) by {
                assert(sched.contains(deps(s, w)[j]));
                if deps(s, w)[j] == u {
                    assert(deps(s, w).contains(u));
                }
            }
        }
        if is_ready(s, old_sched, w) && w != u {
            assert forall|j: int| 0 <= j < deps(s, w).len() implies sched.contains(#[trigger] deps(s, w)[j]) by {
                assert(old_sched.contains(deps(s, w)[j]));
            }
            if cu.contains(w) {
                assert(deps(s, w).contains(u));
                let j = choose|j: int| 0 <= j < deps(s, w).len() && deps(s, w)[j] == u;
                assert(old_sched.contains(deps(s, w)[j]));
            }
        }
    }
}

/// Taking entry `b` out of a queue leaves the queue of the rest.
proof fn lemma_queue_pop(s: Seq<VInstruction>, q0: Seq<(i32, i64, usize)>, b: int, set: Set<int>)
    requires
        queue_is(s, q0, set),
        0 <= b < q0.len(),
    ensures
        queue_is(s, q0.update(b, q0.last()).drop_last(), set.remove(q0[b].2 as int)),
{
    let pq = q0.update(b, q0.last()).drop_last();
    let len = q0.len() - 1;
    let x = q0[b].2 as int;
    let rest = set.remove(x);
    assert forall|j: int| 0 <= j < pq.len() implies #[trigger] pq[j] == entry_of(s, pq[j].2 as int) && rest.contains(pq[j].2 as int) by {
        let jj = if j == b { len } else { j };
        assert(pq[j] == q0[jj]);
        assert(q0[jj] == entry_of(s, q0[jj].2 as int));
        if jj < b {
            assert(q0[jj].2 != q0[b].2);
        } else if jj > b {
            assert(q0[b].2 != q0[jj].2);
        }
    }
    assert forall|v: int| #[trigger] rest.contains(v) implies exists|j: int| 0 <= j < pq.len() && #[trigger] pq[j].2 == v by {
        assert(set.contains(v));
        let j0 = choose|j0: int| 0 <= j0 < q0.len() && #[trigger] q0[j0].2 == v;
        if j0 == len {
            assert(pq[b].2 == v);
        } else {
            assert(pq[j0].2 == v);
        }
    }
    assert forall|a: int, c: int| 0 <= a < c < pq.len() implies #[trigger] pq[a].2 != #[trigger] pq[c].2 by {
        let aa = if a == b { len } else { a };
        let cc = if c == b { len } else { c };
        assert(pq[a] == q0[aa]);
        assert(pq[c] == q0[cc]);
        if aa < cc {
            assert(q0[aa].2 != q0[cc].2);
        } else {
            assert(q0[cc].2 != q0[aa].2);
        }
    }
}

/// Orders the instructions greedily: repeatedly the ready instruction that
/// reads the most values for the last time, the earliest on ties.
///
/// An instruction is ready once every instruction it depends on is
/// scheduled; instructions that never become ready are left out.
pub fn greedy_schedule(vinstrs: Vec<VInstruction>, next_vreg: u32) -> (r: Vec<VInstruction>)
    requires
        temps_below(vinstrs@, next_vreg as nat),
        vinstrs@.len() <= u32::MAX,
        reads_fit(vinstrs@),
        read_total(vinstrs@, vinstrs@.len() as int) <= usize::MAX,
    ensures
        exists|sched: Seq<int>| greedy_order(vinstrs@, sched) && r@ == in_order(vinstrs@, sched),
{
    let ghost s = vinstrs@;
    if vinstrs.len() == 0 {
        proof {
            let e = Seq::<int>::empty();
            assert(greedy_order(s, e));
            assert(vinstrs@ =~= in_order(s, e));
        }
        return vinstrs;
    }
    let n = vinstrs.len();
    let max_t = next_vreg as usize;
    let (producer_map, last_use) = producer_tables(&vinstrs, max_t);
    let (degree, weights) = degrees_and_weights(&vinstrs, &producer_map, &last_use, max_t);
    let offsets = prefix_offsets(&degree, Ghost(read_total(s, n as int) as int));
    let (edges, in_degree) = fill_edges(&vinstrs, &producer_map, &degree, &offsets, max_t);
    let mut in_degree = in_degree;
    proof {
        assert forall|v: int| 0 <= v < n implies i32::MIN <= #[trigger] weight(s, v) <= i32::MAX by {
            lemma_weight_bounds(s, v, vreads_of(s[v]).len() as int);
        }
    }
    let mut pq: Vec<(i32, i64, usize)> = Vec::new();
    let mut i: usize = 0;
    while i < n
        invariant
            i <= n,
            n == s.len(),
            n <= u32::MAX,
            weights@.len() == n,
            forall|v: int| 0 <= v < n ==> #[trigger] weights@[v] == weight(s, v),
            forall|v: int| 0 <= v < n ==> i32::MIN <= #[trigger] weight(s, v) <= i32::MAX,
            in_degree@.len() == n,
            forall|v: int| 0 <= v < n ==> #[trigger] in_degree@[v] == deps(s, v).len(),
            queue_is(s, pq@, Set::new(|v: int| 0 <= v < i && is_ready(s, Seq::empty(), v))),
        decreases n - i,
    {
        let ghost before = pq@;
        if in_degree[i] == 0 {
            pq.push((weights[i], -(i as i64), i));
        }
        proof {
            let old_set = Set::new(|v: int| 0 <= v < i && is_ready(s, Seq::empty(), v));
            let new_set = Set::new(|v: int| 0 <= v < i + 1 && is_ready(s, Seq::empty(), v));
            lemma_unscheduled_zero(deps(s, i as int), Seq::<int>::empty());
            assert(is_ready(s, Seq::empty(), i as int) <==> deps(s, i as int).len() == 0) by {
                if deps(s, i as int).len() > 0 {
                    assert(!Seq::<int>::empty().contains(deps(s, i as int)[0]));
                }
            }
            assert forall|j: int| 0 <= j < pq@.len() implies #[trigger] pq@[j] == entry_of(s, pq@[j].2 as int)
                && new_set.contains(pq@[j].2 as int) by {
                if j < before.len() {
                    assert(old_set.contains(before[j].2 as int));
                }
            }
            assert forall|v: int| #[trigger] new_set.contains(v) implies exists|j: int| 0 <= j < pq@.len() && #[trigger] pq@[j].2 == v by {
                if v < i {
                    assert(old_set.contains(v));
                    let j = choose|j: int| 0 <= j < before.len() && #[trigger] before[j].2 == v;
                    assert(pq@[j].2 == v);
                } else {
                    assert(pq@[before.len() as int].2 == v);
                }
            }
            assert forall|a: int, b: int| 0 <= a < b < pq@.len() implies #[trigger] pq@[a].2 != #[trigger] pq@[b].2 by {
                if b == before.len() {
                    assert(old_set.contains(before[a].2 as int));
                }
            }
        }
        i = i + 1;
    }
    let mut vinstrs_opt: Vec<Option<VInstruction>> = Vec::new();
    for instr in it: vinstrs.into_iter()
        invariant
            it.seq() == s,
            vinstrs_opt@.len() == it.index(),
            forall|k: int| 0 <= k < it.index() ==> #[trigger] vinstrs_opt@[k] == Some(s[k]),
    {
        vinstrs_opt.push(Some(instr));
    }
    let mut scheduled: Vec<VInstruction> = Vec::new();
    let ghost mut sched: Seq<int> = Seq::empty();
    proof {
        assert(scheduled@ =~= in_order(s, sched));
        assert(Set::new(|v: int| 0 <= v < n && is_ready(s, Seq::empty(), v)) =~= ready_set(s, sched));
        assert forall|v: int| 0 <= v < n implies #[trigger] in_degree@[v] == unscheduled(deps(s, v), sched) by {
            lemma_unscheduled_none(deps(s, v));
        }
        lemma_somes_all(vinstrs_opt@);
    }
    while pq.len() > 0
        invariant
            n == s.len(),
            n <= u32::MAX,
            weights@.len() == n,
            forall|v: int| 0 <= v < n ==> #[trigger] weights@[v] == weight(s, v),
            forall|v: int| 0 <= v < n ==> i32::MIN <= #[trigger] weight(s, v) <= i32::MAX,
            offsets@.len() == n + 1,
            forall|p: int| 0 <= p < n ==> #[trigger] offsets@[p] + degree@[p] == offsets@[p + 1],
            degree@.len() == n,
            forall|p: int| 0 <= p < n ==> #[trigger] degree@[p] == consumers(s, p, n as int).len(),
            edges_of(s, offsets@, edges@),
            in_degree@.len() == n,
            forall|v: int| 0 <= v < n ==> #[trigger] in_degree@[v] == unscheduled(deps(s, v), sched),
            queue_is(s, pq@, ready_set(s, sched)),
            vinstrs_opt@.len() == n,
            forall|k: int| 0 <= k < n ==> #[trigger] vinstrs_opt@[k] == (if sched.contains(k) { None } else { Some(s[k]) }),
            scheduled@ == in_order(s, sched),
            forall|k: int| 0 <= k < sched.len() ==> is_next(s, sched.subrange(0, k), #[trigger] sched[k]),
            forall|k: int| 0 <= k < sched.len() ==> 0 <= #[trigger] sched[k] < n,
        decreases somes(vinstrs_opt@),
    {
        proof {
            assert forall|j: int| 0 <= j < pq@.len() implies 0 <= #[trigger] pq@[j].2 < s.len() <= u32::MAX by {
                assert(ready_set(s, sched).contains(pq@[j].2 as int));
            }
        }
        let ghost q0 = pq@;
        let u = pop_best(&mut pq, Ghost(s));
        let ghost b = choose|b: int| 0 <= b < q0.len() && q0[b].2 == u && pq@ == q0.update(b, q0.last()).drop_last();
        proof {
            lemma_queue_pop(s, q0, b, ready_set(s, sched));
            assert(ready_set(s, sched).contains(u as int));
            assert(is_next(s, sched, u as int)) by {
                assert forall|w: int| #[trigger] is_ready(s, sched, w) && w != u implies ranks_before(s, u as int, w) by {
                    assert(ready_set(s, sched).contains(w));
                    let j = choose|j: int| 0 <= j < q0.len() && #[trigger] q0[j].2 == w;
                }
            }
        }
        let ghost opt0 = vinstrs_opt@;
        let taken = vinstrs_opt[u].take();
        let instr = match taken {
            Some(x) => x,
            None => {
                proof {
                    assert(opt0[u as int] == Some(s[u as int]));
                }
                return scheduled;
            },
        };
        proof {
            assert(opt0[u as int] is Some);
            lemma_somes_take(opt0, u as int);
            assert(vinstrs_opt@ == opt0.update(u as int, None::<VInstruction>));
        }
        scheduled.push(instr);
        let ghost old_sched = sched;
        proof {
            sched = sched.push(u as int);
            assert(scheduled@ =~= in_order(s, sched));
            assert forall|k: int| 0 <= k < n implies #[trigger] vinstrs_opt@[k] == (if sched.contains(k) { None } else { Some(s[k]) }) by {
                assert(sched.contains(k) == (old_sched.contains(k) || k == u as int)) by {
                    if sched.contains(k) {
                        let w = choose|w: int| 0 <= w < sched.len() && sched[w] == k;
                        if w < old_sched.len() {
                            assert(old_sched[w] == k);
                        }
                    }
                    if old_sched.contains(k) {
                        let w = choose|w: int| 0 <= w < old_sched.len() && old_sched[w] == k;
                        assert(sched[w] == k);
                    }
                    if k == u as int {
                        assert(sched[old_sched.len() as int] == k);
                    }
                }
            }
            assert forall|k: int| 0 <= k < sched.len() implies is_next(s, sched.subrange(0, k), #[trigger] sched[k]) by {
                if k < old_sched.len() {
                    assert(sched.subrange(0, k) =~= old_sched.subrange(0, k));
                } else {
                    assert(sched.subrange(0, k) =~= old_sched);
                }
            }
        }
        let start = offsets[u];
        let end = offsets[u + 1];
        let ghost cu = consumers(s, u as int, n as int);
        proof {
            lemma_consumers_distinct(s, u as int, n as int);
            assert(end == start + cu.len());
            assert(!old_sched.contains(u as int));
            lemma_ready_after_push(s, old_sched, u as int);
            assert(cu.subrange(0, cu.len() as int) =~= cu);
            assert(Set::new(|w: int| is_ready(s, sched, w) && !cu.subrange(0, cu.len() as int).contains(w))
                =~= ready_set(s, old_sched).remove(u as int));
            assert forall|w: int| 0 <= w < n implies #[trigger] in_degree@[w]
                == unscheduled(deps(s, w), sched) + (if cu.subrange(0, cu.len() as int).contains(w) { 1int } else { 0int }) by {
                lemma_dep_list_distinct(s, w, vreads_of(s[w]).len() as int);
                lemma_unscheduled_push(deps(s, w), old_sched, u as int);
                assert(cu.subrange(0, cu.len() as int) =~= cu);
            }
        }
        let mut idx: usize = start;
        while idx < end
            invariant
                n == s.len(),
                n <= u32::MAX,
                u < n,
                start == offsets@[u as int],
                end == start + cu.len(),
                start <= idx <= end,
                cu == consumers(s, u as int, n as int),
                cu.no_duplicates(),
                forall|j: int| 0 <= j < cu.len() ==> 0 <= #[trigger] cu[j] < n,
                forall|w: int| 0 <= w < n ==> (cu.contains(w) <==> deps(s, w).contains(u as int)),
                weights@.len() == n,
                forall|v: int| 0 <= v < n ==> #[trigger] weights@[v] == weight(s, v),
                forall|v: int| 0 <= v < n ==> i32::MIN <= #[trigger] weight(s, v) <= i32::MAX,
                edges_of(s, offsets@, edges@),
                offsets@.len() == n + 1,
                in_degree@.len() == n,
                sched == old_sched.push(u as int),
                !old_sched.contains(u as int),
                is_ready(s, old_sched, u as int),
                forall|k: int| 0 <= k < sched.len() ==> is_next(s, sched.subrange(0, k), #[trigger] sched[k]),
                forall|w: int| 0 <= w < n ==> #[trigger] in_degree@[w]
                    == unscheduled(deps(s, w), sched) + (if cu.subrange(idx - start, cu.len() as int).contains(w) { 1int } else { 0int }),
                queue_is(s, pq@, Set::new(|w: int| is_ready(s, sched, w) && !cu.subrange(idx - start, cu.len() as int).contains(w))),
            decreases end - idx,
        {
            let ghost j = idx - start;
            proof {
                assert(edges@[offsets@[u as int] + j] == cu[j]);
            }
            let v = edges[idx] as usize;
            let ghost suf = cu.subrange(j, cu.len() as int);
            let ghost suf2 = cu.subrange(j + 1, cu.len() as int);
            proof {
                assert(v as int == cu[j]);
                assert(suf.contains(v as int)) by {
                    assert(suf[0] == v as int);
                }
                assert(!suf2.contains(v as int)) by {
                    if suf2.contains(v as int) {
                        let w = choose|w: int| 0 <= w < suf2.len() && suf2[w] == v as int;
                        assert(cu[j + 1 + w] == cu[j]);
                    }
                }
                assert forall|w: int| w != v as int implies (#[trigger] suf2.contains(w) == suf.contains(w)) by {
                    if suf2.contains(w) {
                        let x = choose|x: int| 0 <= x < suf2.len() && suf2[x] == w;
                        assert(suf[x + 1] == w);
                    }
                    if suf.contains(w) {
                        let x = choose|x: int| 0 <= x < suf.len() && suf[x] == w;
                        if x == 0 {
                            assert(suf[0] == v as int);
                        } else {
                            assert(suf2[x - 1] == w);
                        }
                    }
                }
            }
            let d = in_degree[v];
            in_degree.set(v, d - 1);
            let ghost before = pq@;
            if d - 1 == 0 {
                pq.push((weights[v], -(v as i64), v));
            }
            proof {
                let old_set = Set::new(|w: int| is_ready(s, sched, w) && !suf.contains(w));
                let new_set = Set::new(|w: int| is_ready(s, sched, w) && !suf2.contains(w));
                lemma_unscheduled_zero(deps(s, v as int), sched);
                assert(cu.contains(v as int)) by {
                    assert(cu[j] == v as int);
                }
                assert(deps(s, v as int).contains(u as int));
                assert(v as int != u as int) by {
                    if v as int == u as int {
                        let k = choose|k: int| 0 <= k < deps(s, u as int).len() && deps(s, u as int)[k] == u as int;
                        assert(old_sched.contains(deps(s, u as int)[k]));
                    }
                }
                assert(!sched.contains(v as int)) by {
                    if old_sched.contains(v as int) {
                        let k = choose|k: int| 0 <= k < old_sched.len() && old_sched[k] == v as int;
                        assert(is_next(s, sched.subrange(0, k), sched[k]));
                        assert(sched[k] == v as int);
                        let pre = sched.subrange(0, k);
                        assert(is_ready(s, pre, v as int));
                        let kk = choose|kk: int| 0 <= kk < deps(s, v as int).len() && deps(s, v as int)[kk] == u as int;
                        assert(pre.contains(deps(s, v as int)[kk]));
                        let w = choose|w: int| 0 <= w < pre.len() && pre[w] == u as int;
                        assert(old_sched[w] == u as int);
                    }
                    if v as int == u as int {
                    }
                    if sched.contains(v as int) {
                        let w = choose|w: int| 0 <= w < sched.len() && sched[w] == v as int;
                        if w < old_sched.len() {
                            assert(old_sched[w] == v as int);
                        }
                    }
                }
                assert(is_ready(s, sched, v as int) <==> d - 1 == 0);
                assert forall|jj: int| 0 <= jj < pq@.len() implies #[trigger] pq@[jj] == entry_of(s, pq@[jj].2 as int)
                    && new_set.contains(pq@[jj].2 as int) by {
                    if jj < before.len() {
                        assert(old_set.contains(before[jj].2 as int));
                    }
                }
                assert forall|w: int| #[trigger] new_set.contains(w) implies exists|jj: int| 0 <= jj < pq@.len() && #[trigger] pq@[jj].2 == w by {
                    if w == v as int {
                        assert(pq@[before.len() as int].2 == w);
                    } else {
                        assert(old_set.contains(w));
                        let jj = choose|jj: int| 0 <= jj < before.len() && #[trigger] before[jj].2 == w;
                        assert(pq@[jj].2 == w);
                    }
                }
                assert forall|a: int, bb: int| 0 <= a < bb < pq@.len() implies #[trigger] pq@[a].2 != #[trigger] pq@[bb].2 by {
                    if bb == before.len() {
                        assert(old_set.contains(before[a].2 as int));
                    }
                }
                assert forall|w: int| 0 <= w < n implies #[trigger] in_degree@[w]
                    == unscheduled(deps(s, w), sched) + (if suf2.contains(w) { 1int } else { 0int }) by {
                    if w != v as int {
                        assert(suf2.contains(w) == suf.contains(w));
                    }
                }
            }
            idx = idx + 1;
        }
        proof {
            assert(cu.subrange(cu.len() as int, cu.len() as int) =~= Seq::<int>::empty());
            assert(Set::new(|w: int| is_ready(s, sched, w) && !cu.subrange(cu.len() as int, cu.len() as int).contains(w))
                =~= ready_set(s, sched));
            assert forall|k: int| 0 <= k < sched.len() implies 0 <= #[trigger] sched[k] < n by {
                if k < old_sched.len() {
                    assert(sched[k] == old_sched[k]);
                }
            }
        }
    }
    proof {
        assert(greedy_order(s, sched)) by {
            assert forall|k: int| 0 <= k < sched.len() implies is_next(s, sched.subrange(0, k), #[trigger] sched[k]) by {}
            assert forall|v: int| !is_ready(s, sched, v) by {
                if is_ready(s, sched, v) {
                    assert(ready_set(s, sched).contains(v));
                }
            }
        }
    }
    scheduled
}

proof fn lemma_next_unique(s: Seq<VInstruction>, pre: Seq<int>, a: int, b: int)
    requires
        is_next(s, pre, a),
        is_next(s, pre, b),
    ensures
        a == b,
{
    if a != b {
        assert(is_ready(s, pre, b));
        assert(is_ready(s, pre, a));
        assert(ranks_before(s, a, b));
        assert(ranks_before(s, b, a));
    }
}

proof fn lemma_prefixes_agree(s: Seq<VInstruction>, a: Seq<int>, b: Seq<int>, k: int)
    requires
        greedy_order(s, a),
        greedy_order(s, b),
        0 <= k <= a.len(),
        k <= b.len(),
    ensures
        a.subrange(0, k) == b.subrange(0, k),
    decreases k,
{
    if k > 0 {
        lemma_prefixes_agree(s, a, b, k - 1);
        assert(is_next(s, a.subrange(0, k - 1), a[k - 1]));
        assert(is_next(s, b.subrange(0, k - 1), b[k - 1]));
        lemma_next_unique(s, a.subrange(0, k - 1), a[k - 1], b[k - 1]);
        assert(a.subrange(0, k) =~= a.subrange(0, k - 1).push(a[k - 1]));
        assert(b.subrange(0, k) =~= b.subrange(0, k - 1).push(b[k - 1]));
    }
}

proof fn lemma_no_longer(s: Seq<VInstruction>, a: Seq<int>, b: Seq<int>)
    requires
        greedy_order(s, a),
        greedy_order(s, b),
    ensures
        b.len() <= a.len(),
{
    if b.len() > a.len() {
        let k = a.len() as int;
        lemma_prefixes_agree(s, a, b, k);
        assert(a.subrange(0, k) =~= a);
        assert(is_next(s, b.subrange(0, k), b[k]));
        assert(is_ready(s, a, b[k]));
    }
}

/// The greedy order of a program is unique: the scheduler's result is
/// determined by its input.
pub proof fn law_greedy_order_is_unique(s: Seq<VInstruction>, a: Seq<int>, b: Seq<int>)
    requires
        greedy_order(s, a),
        greedy_order(s, b),
    ensures
        a == b,
{
    lemma_no_longer(s, a, b);
    lemma_no_longer(s, b, a);
    lemma_prefixes_agree(s, a, b, a.len() as int);
    assert(a.subrange(0, a.len() as int) =~= a);
    assert(b.subrange(0, b.len() as int) =~= b);
    assert(a =~= b);
}

/// In the greedy order each instruction is taken at most once, and only after
/// every instruction it depends on.
pub proof fn law_schedule_respects_dependencies(s: Seq<VInstruction>, sched: Seq<int>)
    requires
        greedy_order(s, sched),
    ensures
        sched.no_duplicates(),
        forall|k: int| 0 <= k < sched.len() ==> 0 <= #[trigger] sched[k] < s.len(),
        forall|k: int, j: int| 0 <= k < sched.len() && 0 <= j < deps(s, sched[k]).len() ==>
            sched.subrange(0, k).contains(#[trigger] deps(s, sched[k])[j]),
{
    assert forall|a: int, b: int| 0 <= a < sched.len() && 0 <= b < sched.len() && a != b implies sched[a] != sched[b] by {
        let x = if a < b { a } else { b };
        let y = if a < b { b } else { a };
        let pre = sched.subrange(0, y);
        assert(is_next(s, pre, sched[y]));
        assert(!pre.contains(sched[y]));
        assert(pre[x] == sched[x]);
        if sched[x] == sched[y] {
            assert(pre.contains(sched[y]));
        }
    }
    assert(sched.no_duplicates());
    assert forall|k: int| 0 <= k < sched.len() implies 0 <= #[trigger] sched[k] < s.len() by {
        assert(is_next(s, sched.subrange(0, k), sched[k]));
    }
    assert forall|k: int, j: int| 0 <= k < sched.len() && 0 <= j < deps(s, sched[k]).len() implies
        sched.subrange(0, k).contains(#[trigger] deps(s, sched[k])[j]) by {
        assert(is_next(s, sched.subrange(0, k), sched[k]));
    }
}

proof fn lemma_dep_list_in_range(s: Seq<VInstruction>, v: int, q: int)
    ensures
        forall|j: int| 0 <= j < dep_list(s, v, q).len() ==> 0 <= #[trigger] dep_list(s, v, q)[j] < s.len(),
    decreases q,
{
    if q > 0 {
        lemma_dep_list_in_range(s, v, q - 1);
        let l = dep_list(s, v, q - 1);
        let r = vreads_of(s[v])[q - 1];
        if let VReg::Temp(t) = r {
            lemma_producer_below(s, t, s.len() as int);
        }
        assert forall|j: int| 0 <= j < dep_list(s, v, q).len() implies 0 <= #[trigger] dep_list(s, v, q)[j] < s.len() by {
            if j < l.len() {
                assert(dep_list(s, v, q)[j] == l[j]);
            }
        }
    }
}

proof fn lemma_all_scheduled_below(s: Seq<VInstruction>, sched: Seq<int>, m: int)
    requires
        greedy_order(s, sched),
        0 <= m <= s.len(),
        forall|v: int, j: int| 0 <= v < s.len() && 0 <= j < deps(s, v).len() ==> #[trigger] deps(s, v)[j] < v,
    ensures
        forall|v: int| 0 <= v < m ==> sched.contains(v),
    decreases m,
{
    if m > 0 {
        lemma_all_scheduled_below(s, sched, m - 1);
        let v = m - 1;
        if !sched.contains(v) {
            lemma_dep_list_in_range(s, v, vreads_of(s[v]).len() as int);
            assert forall|j: int| 0 <= j < deps(s, v).len() implies sched.contains(#[trigger] deps(s, v)[j]) by {
                assert(deps(s, v)[j] < v);
            }
            assert(is_ready(s, sched, v));
        }
    }
}

/// When every instruction depends only on earlier ones, as in a program that
/// writes each temporary before reading it, the greedy order takes every
/// instruction exactly once.
pub proof fn law_schedule_is_a_permutation(s: Seq<VInstruction>, sched: Seq<int>)
    requires
        greedy_order(s, sched),
        forall|v: int, j: int| 0 <= v < s.len() && 0 <= j < deps(s, v).len() ==> #[trigger] deps(s, v)[j] < v,
    ensures
        sched.len() == s.len(),
        sched.no_duplicates(),
        forall|v: int| 0 <= v < s.len() ==> sched.contains(v),
{
    law_schedule_respects_dependencies(s, sched);
    lemma_all_scheduled_below(s, sched, s.len() as int);
    sched.unique_seq_to_set();
    vstd::set_lib::lemma_int_range(0, s.len() as int);
    assert(sched.to_set() =~= vstd::set_lib::set_int_range(0, s.len() as int)) by {
        assert forall|v: int| #[trigger] sched.to_set().contains(v) implies 0 <= v < s.len() by {
            let k = choose|k: int| 0 <= k < sched.len() && sched[k] == v;
        }
    }
}

proof fn lemma_somes_all<T>(o: Seq<Option<T>>)
    ensures
        somes(o) <= o.len(),
    decreases o.len(),
{
    if o.len() > 0 {
        lemma_somes_all(o.drop_last());
    }
}

} // verus!
