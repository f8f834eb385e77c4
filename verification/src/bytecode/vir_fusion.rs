//! Fused multiply-adds over virtual registers, before scheduling.
//!
//! A sum, difference or negation whose operand is a product read only there,
//! and computed by the instruction just before, is rewritten as one fused
//! instruction in place of the product, so that the scheduler keeps the two
//! together.

use vstd::prelude::*;
use std::collections::HashMap;
use rustc_hash::{FxBuildHasher, FxHashMap};
use super::vir::{VInstruction, VReg, vdest_of, vreads_of};

verus! {

broadcast use vstd::std_specs::vec::axiom_spec_into_iter;

// ---------------------------------------------------------------------------
// Use counts
// ---------------------------------------------------------------------------

/// How many times `r` occurs in `rs`.
pub open spec fn occurrences(rs: Seq<VReg>, r: VReg) -> nat
    decreases rs.len(),
{
    if rs.len() == 0 {
        0
    } else {
        occurrences(rs.drop_last(), r) + (if rs.last() == r { 1nat } else { 0nat })
    }
}

/// How many times the first `k` instructions of `s` read temporary `t`.
pub open spec fn temp_reads(s: Seq<VInstruction>, t: u32, k: int) -> nat
    decreases k,
{
    if k <= 0 {
        0
    } else {
        temp_reads(s, t, k - 1) + occurrences(vreads_of(s[k - 1]), VReg::Temp(t))
    }
}

/// How many registers the first `k` instructions of `s` read, all told.
pub open spec fn read_total(s: Seq<VInstruction>, k: int) -> nat
    decreases k,
{
    if k <= 0 {
        0
    } else {
        read_total(s, k - 1) + vreads_of(s[k - 1]).len()
    }
}

/// For each temporary below `max_reg`, how many times `s` reads it.
pub open spec fn use_counts(s: Seq<VInstruction>, max_reg: nat) -> Seq<u32> {
    Seq::new(max_reg, |t: int| temp_reads(s, t as u32, s.len() as int) as u32)
}

proof fn lemma_occurrences_le(rs: Seq<VReg>, r: VReg)
    ensures
        occurrences(rs, r) <= rs.len(),
    decreases rs.len(),
{
    if rs.len() > 0 {
        lemma_occurrences_le(rs.drop_last(), r);
    }
}

proof fn lemma_temp_reads_le(s: Seq<VInstruction>, t: u32, k: int)
    ensures
        temp_reads(s, t, k) <= read_total(s, k),
    decreases k,
{
    if k > 0 {
        lemma_temp_reads_le(s, t, k - 1);
        lemma_occurrences_le(vreads_of(s[k - 1]), VReg::Temp(t));
    }
}

proof fn lemma_read_total_mono(s: Seq<VInstruction>, j: int, k: int)
    requires
        j <= k,
    ensures
        read_total(s, j) <= read_total(s, k),
    decreases k - j,
{
    if j < k {
        lemma_read_total_mono(s, j, k - 1);
    }
}

/// Counts, for each temporary below `max_reg`, how often the instructions read it.
fn count_uses(instructions: &Vec<VInstruction>, max_reg: usize) -> (uc: Vec<u32>)
    requires
        max_reg <= u32::MAX,
        read_total(instructions@, instructions@.len() as int) <= u32::MAX,
    ensures
        uc@ == use_counts(instructions@, max_reg as nat),
{
    let ghost s = instructions@;
    let mut use_count: Vec<u32> = Vec::new();
    let mut t: usize = 0;
    while t < max_reg
        invariant
            t <= max_reg,
            use_count@ =~= Seq::new(t as nat, |q: int| 0u32),
        decreases max_reg - t,
    {
        use_count.push(0);
        t = t + 1;
    }
    let mut i: usize = 0;
    while i < instructions.len()
        invariant
            i <= s.len(),
            s == instructions@,
            max_reg <= u32::MAX,
            read_total(s, s.len() as int) <= u32::MAX,
            use_count@.len() == max_reg,
            forall|q: int| 0 <= q < max_reg ==> #[trigger] use_count@[q] == temp_reads(s, q as u32, i as int),
        decreases s.len() - i,
    {
        let rs = instructions[i].reads();
        let ghost before = use_count@;
        proof {
            lemma_read_total_mono(s, i + 1, s.len() as int);
        }
        let mut j: usize = 0;
        while j < rs.len()
            invariant
                j <= rs@.len(),
                i < s.len(),
                max_reg <= u32::MAX,
                rs@ == vreads_of(s[i as int]),
                read_total(s, i + 1) <= u32::MAX,
                use_count@.len() == max_reg,
                forall|q: int| 0 <= q < max_reg ==> #[trigger] use_count@[q]
                    == before[q] + occurrences(rs@.subrange(0, j as int), VReg::Temp(q as u32)),
                forall|q: int| 0 <= q < max_reg ==> #[trigger] before[q] == temp_reads(s, q as u32, i as int),
            decreases rs.len() - j,
        {
            let ghost pre = use_count@;
            proof {
                assert(rs@.subrange(0, j + 1).drop_last() =~= rs@.subrange(0, j as int));
                assert forall|q: int| 0 <= q < max_reg implies
                    #[trigger] occurrences(rs@.subrange(0, j + 1), VReg::Temp(q as u32))
                    == occurrences(rs@.subrange(0, j as int), VReg::Temp(q as u32))
                        + (if rs@[j as int] == VReg::Temp(q as u32) { 1nat } else { 0nat }) by {
                    assert(rs@.subrange(0, j + 1).last() == rs@[j as int]);
                }
            }
            if let VReg::Temp(tt) = rs[j] {
                if (tt as usize) < max_reg {
                    proof {
                        lemma_temp_reads_le(s, tt, i + 1);
                        lemma_occurrences_le(rs@.subrange(0, j as int), VReg::Temp(tt));
                        lemma_occurrences_prefix(rs@, VReg::Temp(tt), j as int);
                        lemma_temp_reads_le(s, tt, i as int);
                    }
                    let c = use_count[tt as usize];
                    use_count.set(tt as usize, c + 1);
                }
            }
            j = j + 1;
        }
        proof {
            assert(rs@.subrange(0, rs@.len() as int) =~= rs@);
        }
        i = i + 1;
    }
    proof {
        assert(use_count@ =~= use_counts(s, max_reg as nat));
    }
    use_count
}

/// Occurrences in a prefix are at most those in the whole.
proof fn lemma_occurrences_prefix(rs: Seq<VReg>, r: VReg, j: int)
    requires
        0 <= j < rs.len(),
    ensures
        occurrences(rs.subrange(0, j), r) + (if rs[j] == r { 1nat } else { 0nat }) <= occurrences(rs, r),
    decreases rs.len(),
{
    if j < rs.len() - 1 {
        lemma_occurrences_prefix(rs.drop_last(), r, j);
        assert(rs.drop_last().subrange(0, j) =~= rs.subrange(0, j));
    } else {
        assert(rs.drop_last() =~= rs.subrange(0, j));
    }
}

// ---------------------------------------------------------------------------
// The producer table: an `FxHashMap` behind trusted wrappers
// ---------------------------------------------------------------------------

/// What a producer table holds: temporary to the index, in the output, of
/// the instruction that writes it.
pub uninterp spec fn producers(m: HashMap<u32, usize, FxBuildHasher>) -> Map<u32, usize>;

/// The table that records nothing.
pub open spec fn no_producers() -> Map<u32, usize> {
    Map::empty()
}

/// `FxHashMap::default`: an empty table.
#[verifier::external_body]
fn producers_new() -> (r: FxHashMap<u32, usize>)
    ensures
        producers(r) == no_producers(),
{
    FxHashMap::default()
}

/// `HashMap::get`, the index copied out: where temporary `t` is written.
#[verifier::external_body]
fn producers_get(m: &FxHashMap<u32, usize>, t: u32) -> (r: Option<usize>)
    ensures
        match r {
            Some(i) => producers(*m).contains_key(t) && producers(*m)[t] == i,
            None => !producers(*m).contains_key(t),
        },
{
    m.get(&t).copied()
}

/// `HashMap::insert`: temporary `t` is written at index `i`.
#[verifier::external_body]
fn producers_insert(m: &mut FxHashMap<u32, usize>, t: u32, i: usize)
    ensures
        producers(*final(m)) == producers(*old(m)).insert(t, i),
{
    m.insert(t, i);
}

/// `HashMap::remove`: forget where temporary `t` is written.
#[verifier::external_body]
fn producers_remove(m: &mut FxHashMap<u32, usize>, t: u32)
    ensures
        producers(*final(m)) == producers(*old(m)).remove(t),
{
    m.remove(&t);
}

// ---------------------------------------------------------------------------
// The rewriting, as a state machine over the instructions
// ---------------------------------------------------------------------------

/// The output so far, and where each temporary is written in it.
pub struct FuseState {
    pub out: Seq<VInstruction>,
    pub prod: Map<u32, usize>,
}

/// Whether `r` is a temporary that the program reads exactly once.
pub open spec fn single_use(uc: Seq<u32>, r: VReg) -> bool {
    r matches VReg::Temp(t) && uc[t as int] == 1
}

/// The product that computes `r`, if `r` is read exactly once and written
/// by a `Mul2` or `NegMul` of the output: whether it is negated, and its factors.
pub open spec fn mul_producer(st: FuseState, uc: Seq<u32>, r: VReg) -> Option<(bool, VReg, VReg)> {
    match r {
        VReg::Temp(t) => if uc[t as int] == 1 && st.prod.contains_key(t) {
            match st.out[st.prod[t] as int] {
                VInstruction::Mul2 { a, b, .. } => Some((false, a, b)),
                VInstruction::NegMul { a, b, .. } => Some((true, a, b)),
                _ => None,
            }
        } else {
            None
        },
        _ => None,
    }
}

/// `dest = ±(x * y) + c` as one instruction.
pub open spec fn fma(neg: bool, dest: VReg, x: VReg, y: VReg, c: VReg) -> VInstruction {
    if neg {
        VInstruction::NegMulAdd { dest, a: x, b: y, c }
    } else {
        VInstruction::MulAdd { dest, a: x, b: y, c }
    }
}

/// `dest = ±(x * y) - c` as one instruction.
pub open spec fn fms(neg: bool, dest: VReg, x: VReg, y: VReg, c: VReg) -> VInstruction {
    if neg {
        VInstruction::NegMulSub { dest, a: x, b: y, c }
    } else {
        VInstruction::MulSub { dest, a: x, b: y, c }
    }
}

/// The fused form of `dest = a + b`: the product behind `a` plus `b`, else
/// the product behind `b` plus `a`.
pub open spec fn fused_add(st: FuseState, uc: Seq<u32>, dest: VReg, a: VReg, b: VReg) -> Option<VInstruction> {
    match mul_producer(st, uc, a) {
        Some((neg, x, y)) => Some(fma(neg, dest, x, y, b)),
        None => match mul_producer(st, uc, b) {
            Some((neg, x, y)) => Some(fma(neg, dest, x, y, a)),
            None => None,
        },
    }
}

/// The fused form of `dest = a - b`: the product behind `a` minus `b`, else
/// `a` minus the product behind `b`.
pub open spec fn fused_sub(st: FuseState, uc: Seq<u32>, dest: VReg, a: VReg, b: VReg) -> Option<VInstruction> {
    match mul_producer(st, uc, a) {
        Some((neg, x, y)) => Some(fms(neg, dest, x, y, b)),
        None => match mul_producer(st, uc, b) {
            Some((neg, x, y)) => Some(fma(!neg, dest, x, y, a)),
            None => None,
        },
    }
}

/// Whether `op` is a temporary written by the last instruction of the output.
pub open spec fn produced_last(st: FuseState, op: VReg) -> bool {
    op matches VReg::Temp(t) && st.prod.contains_key(t) && st.prod[t] == st.out.len() - 1
}

/// The temporary's number, for a temporary.
pub open spec fn temp_index(r: VReg) -> u32 {
    match r {
        VReg::Temp(t) => t,
        _ => 0,
    }
}

/// Appends `i`, recording where its result is written.
pub open spec fn append(st: FuseState, i: VInstruction) -> FuseState {
    FuseState {
        out: st.out.push(i),
        prod: match vdest_of(i) {
            VReg::Temp(d) => st.prod.insert(d, st.out.len() as usize),
            _ => st.prod,
        },
    }
}

/// Replaces the last instruction of the output, which writes `op`, by `i`.
pub open spec fn replace_last(st: FuseState, op: VReg, i: VInstruction) -> FuseState {
    append(FuseState { out: st.out.drop_last(), prod: st.prod.remove(temp_index(op)) }, i)
}

/// The fusion of `dest = a + b`, if it happens: the operand whose product is
/// dropped is `a` when `a` is read once, else `b`, and it must have been
/// written by the last instruction.
pub open spec fn add2_step(st: FuseState, uc: Seq<u32>, dest: VReg, a: VReg, b: VReg) -> Option<FuseState> {
    match fused_add(st, uc, dest, a, b) {
        Some(ni) => {
            let op = if single_use(uc, a) { a } else { b };
            if produced_last(st, op) { Some(replace_last(st, op, ni)) } else { None }
        },
        None => None,
    }
}

/// The fusion of `dest = a - b`, if it happens: the operand whose product is
/// dropped is `a` when `a` is read once and written by a product, else `b`,
/// and it must have been written by the last instruction.
pub open spec fn sub_step(st: FuseState, uc: Seq<u32>, dest: VReg, a: VReg, b: VReg) -> Option<FuseState> {
    match fused_sub(st, uc, dest, a, b) {
        Some(ni) => {
            let op = if mul_producer(st, uc, a) is Some { a } else { b };
            if produced_last(st, op) { Some(replace_last(st, op, ni)) } else { None }
        },
        None => None,
    }
}

/// The fusion of `dest = -src`, if it happens: `src` is read once and
/// written by a `Mul2` that is the last instruction.
pub open spec fn neg_step(st: FuseState, uc: Seq<u32>, dest: VReg, src: VReg) -> Option<FuseState> {
    if single_use(uc, src) && produced_last(st, src) && st.out.last() is Mul2 {
        match st.out.last() {
            VInstruction::Mul2 { a, b, .. } => Some(replace_last(st, src, VInstruction::NegMul { dest, a, b })),
            _ => None,
        }
    } else {
        None
    }
}

/// The state after instruction `i`: fused where a fusion applies, else appended.
pub open spec fn fuse_step(st: FuseState, uc: Seq<u32>, i: VInstruction) -> FuseState {
    let fused = match i {
        VInstruction::Add2 { dest, a, b } => add2_step(st, uc, dest, a, b),
        VInstruction::Sub { dest, a, b } => sub_step(st, uc, dest, a, b),
        VInstruction::Neg { dest, src } => neg_step(st, uc, dest, src),
        _ => None,
    };
    match fused {
        Some(st2) => st2,
        None => append(st, i),
    }
}

/// The state after the first `k` instructions of `s`.
pub open spec fn fuse_upto(s: Seq<VInstruction>, uc: Seq<u32>, k: int) -> FuseState
    decreases k,
{
    if k <= 0 {
        FuseState { out: Seq::empty(), prod: Map::empty() }
    } else {
        fuse_step(fuse_upto(s, uc, k - 1), uc, s[k - 1])
    }
}

/// The number of temporaries the use counts cover: the next free temporary,
/// or 1024 when no temporary is given.
pub open spec fn count_limit(next_vreg: VReg) -> nat {
    match next_vreg {
        VReg::Temp(t) => t as nat,
        _ => 1024,
    }
}

/// Whether the use counts cover every temporary the pass looks up at
/// instruction `i` in state `st`: the first operand of a sum or difference,
/// the second when the first has no product to fuse, and the operand of a
/// negation.
pub open spec fn counts_cover(st: FuseState, uc: Seq<u32>, i: VInstruction) -> bool {
    match i {
        VInstruction::Add2 { a, b, .. } | VInstruction::Sub { a, b, .. } =>
            counted(uc, a) && (mul_producer(st, uc, a) is None ==> counted(uc, b)),
        VInstruction::Neg { src, .. } => counted(uc, src),
        _ => true,
    }
}

/// Whether the use counts, over `limit` temporaries, cover every lookup the
/// pass makes on `s`.
pub open spec fn fusable_operands(s: Seq<VInstruction>, limit: nat) -> bool {
    let uc = use_counts(s, limit);
    forall|k: int| 0 <= k < s.len() ==> #[trigger] counts_cover(fuse_upto(s, uc, k), uc, s[k])
}

/// Where each temporary is written is an index of the output, whose
/// instruction writes that temporary.
pub open spec fn producers_ok(st: FuseState) -> bool {
    forall|t: u32| #[trigger] st.prod.contains_key(t) ==>
        st.prod[t] < st.out.len() && vdest_of(st.out[st.prod[t] as int]) == VReg::Temp(t)
}

/// The fusion of `s`: what the state machine leaves after the last instruction.
pub open spec fn fuse_vir_result(s: Seq<VInstruction>, next_vreg: VReg) -> Seq<VInstruction> {
    if s.len() == 0 {
        s
    } else {
        fuse_upto(s, use_counts(s, count_limit(next_vreg)), s.len() as int).out
    }
}

/// The state an output and a producer table stand for.
pub open spec fn state_of(out: Seq<VInstruction>, m: HashMap<u32, usize, FxBuildHasher>) -> FuseState {
    FuseState { out, prod: producers(m) }
}

/// Whether `r`, when a temporary, is covered by the use counts.
pub open spec fn counted(uc: Seq<u32>, r: VReg) -> bool {
    r matches VReg::Temp(t) ==> t < uc.len()
}

/// Appending keeps the producer table right.
proof fn lemma_append_ok(st: FuseState, i: VInstruction)
    requires
        producers_ok(st),
        st.out.len() <= usize::MAX,
    ensures
        producers_ok(append(st, i)),
{
    let st2 = append(st, i);
    assert forall|t: u32| #[trigger] st2.prod.contains_key(t) implies
        st2.prod[t] < st2.out.len() && vdest_of(st2.out[st2.prod[t] as int]) == VReg::Temp(t) by {
        if vdest_of(i) == VReg::Temp(t) {
            assert(st2.prod[t] == st.out.len());
            assert(st2.out[st.out.len() as int] == i);
        } else {
            assert(st.prod.contains_key(t));
            assert(st2.prod[t] == st.prod[t]);
            assert(st2.out[st.prod[t] as int] == st.out[st.prod[t] as int]);
        }
    }
}

/// Replacing the last instruction, which writes `op`, keeps the producer table right.
proof fn lemma_replace_ok(st: FuseState, op: VReg, i: VInstruction)
    requires
        producers_ok(st),
        st.out.len() <= usize::MAX,
        produced_last(st, op),
    ensures
        producers_ok(replace_last(st, op, i)),
{
    let mid = FuseState { out: st.out.drop_last(), prod: st.prod.remove(temp_index(op)) };
    assert forall|t: u32| #[trigger] mid.prod.contains_key(t) implies
        mid.prod[t] < mid.out.len() && vdest_of(mid.out[mid.prod[t] as int]) == VReg::Temp(t) by {
        assert(st.prod.contains_key(t));
        if st.prod[t] == st.out.len() - 1 {
            assert(vdest_of(st.out[st.prod[temp_index(op)] as int]) == VReg::Temp(temp_index(op)));
        }
    }
    lemma_append_ok(mid, i);
}

/// The product behind `r`, as `mul_producer` says.
fn mul_operands(r: VReg, out: &Vec<VInstruction>, producer_idx: &FxHashMap<u32, usize>, use_count: &Vec<u32>)
    -> (res: Option<(bool, VReg, VReg)>)
    requires
        producers_ok(state_of(out@, *producer_idx)),
        counted(use_count@, r),
    ensures
        res == mul_producer(state_of(out@, *producer_idx), use_count@, r),
{
    match r {
        VReg::Temp(t) => {
            if use_count[t as usize] == 1 {
                match producers_get(producer_idx, t) {
                    Some(idx) => match &out[idx] {
                        VInstruction::Mul2 { a, b, .. } => Some((false, *a, *b)),
                        VInstruction::NegMul { a, b, .. } => Some((true, *a, *b)),
                        _ => None,
                    },
                    None => None,
                }
            } else {
                None
            }
        },
        _ => None,
    }
}

/// `dest = ±(x * y) + c`.
fn make_fma(neg: bool, dest: VReg, x: VReg, y: VReg, c: VReg) -> (r: VInstruction)
    ensures
        r == fma(neg, dest, x, y, c),
{
    if neg {
        VInstruction::NegMulAdd { dest, a: x, b: y, c }
    } else {
        VInstruction::MulAdd { dest, a: x, b: y, c }
    }
}

/// `dest = ±(x * y) - c`.
fn make_fms(neg: bool, dest: VReg, x: VReg, y: VReg, c: VReg) -> (r: VInstruction)
    ensures
        r == fms(neg, dest, x, y, c),
{
    if neg {
        VInstruction::NegMulSub { dest, a: x, b: y, c }
    } else {
        VInstruction::MulSub { dest, a: x, b: y, c }
    }
}

/// The fused form of `dest = a + b`, if any.
fn try_fuse_add(dest: VReg, a: VReg, b: VReg, out: &Vec<VInstruction>, producer_idx: &FxHashMap<u32, usize>, use_count: &Vec<u32>)
    -> (r: Option<VInstruction>)
    requires
        producers_ok(state_of(out@, *producer_idx)),
        counted(use_count@, a),
        mul_producer(state_of(out@, *producer_idx), use_count@, a) is None ==> counted(use_count@, b),
    ensures
        r == fused_add(state_of(out@, *producer_idx), use_count@, dest, a, b),
{
    match mul_operands(a, out, producer_idx, use_count) {
        Some((neg, x, y)) => Some(make_fma(neg, dest, x, y, b)),
        None => match mul_operands(b, out, producer_idx, use_count) {
            Some((neg, x, y)) => Some(make_fma(neg, dest, x, y, a)),
            None => None,
        },
    }
}

/// The fused form of `dest = a - b`, if any.
fn try_fuse_sub(dest: VReg, a: VReg, b: VReg, out: &Vec<VInstruction>, producer_idx: &FxHashMap<u32, usize>, use_count: &Vec<u32>)
    -> (r: Option<VInstruction>)
    requires
        producers_ok(state_of(out@, *producer_idx)),
        counted(use_count@, a),
        mul_producer(state_of(out@, *producer_idx), use_count@, a) is None ==> counted(use_count@, b),
    ensures
        r == fused_sub(state_of(out@, *producer_idx), use_count@, dest, a, b),
{
    match mul_operands(a, out, producer_idx, use_count) {
        Some((neg, x, y)) => Some(make_fms(neg, dest, x, y, b)),
        None => match mul_operands(b, out, producer_idx, use_count) {
            Some((neg, x, y)) => Some(make_fma(!neg, dest, x, y, a)),
            None => None,
        },
    }
}

/// Whether `op` is written by the last instruction of `out`.
fn is_produced_last(op: VReg, out: &Vec<VInstruction>, producer_idx: &FxHashMap<u32, usize>) -> (r: bool)
    requires
        producers_ok(state_of(out@, *producer_idx)),
    ensures
        r == produced_last(state_of(out@, *producer_idx), op),
{
    match op {
        VReg::Temp(t) => match producers_get(producer_idx, t) {
            Some(idx) => idx == out.len() - 1,
            None => false,
        },
        _ => false,
    }
}

/// Replaces the last instruction of `out`, which writes `op`, by `ni`.
fn replace_last_exec(op: VReg, ni: VInstruction, out: &mut Vec<VInstruction>, producer_idx: &mut FxHashMap<u32, usize>)
    requires
        producers_ok(state_of(old(out)@, *old(producer_idx))),
        produced_last(state_of(old(out)@, *old(producer_idx)), op),
    ensures
        state_of(final(out)@, *final(producer_idx)) == replace_last(state_of(old(out)@, *old(producer_idx)), op, ni),
        producers_ok(state_of(final(out)@, *final(producer_idx))),
{
    let cur_len = out.len();
    proof {
        lemma_replace_ok(state_of(out@, *producer_idx), op, ni);
    }
    out.pop();
    producers_remove(producer_idx, temp_index_exec(op));
    if let VReg::Temp(d) = ni.dest() {
        producers_insert(producer_idx, d, out.len());
    }
    out.push(ni);
}

/// The temporary's number, for a temporary.
fn temp_index_exec(r: VReg) -> (t: u32)
    ensures
        t == temp_index(r),
{
    match r {
        VReg::Temp(t) => t,
        _ => 0,
    }
}

/// Fuses `dest = a + b` into the product behind one operand, if possible.
fn process_add2(dest: VReg, a: VReg, b: VReg, out: &mut Vec<VInstruction>, producer_idx: &mut FxHashMap<u32, usize>, use_count: &Vec<u32>)
    -> (fused: bool)
    requires
        producers_ok(state_of(old(out)@, *old(producer_idx))),
        counted(use_count@, a),
        mul_producer(state_of(old(out)@, *old(producer_idx)), use_count@, a) is None ==> counted(use_count@, b),
    ensures
        producers_ok(state_of(final(out)@, *final(producer_idx))),
        match add2_step(state_of(old(out)@, *old(producer_idx)), use_count@, dest, a, b) {
            Some(st2) => fused && state_of(final(out)@, *final(producer_idx)) == st2,
            None => !fused && final(out)@ == old(out)@ && *final(producer_idx) == *old(producer_idx),
        },
{
    if let Some(new_instr) = try_fuse_add(dest, a, b, out, producer_idx, use_count) {
        let op_to_remove = match a {
            VReg::Temp(ta) => if use_count[ta as usize] == 1 { a } else { b },
            _ => b,
        };
        if is_produced_last(op_to_remove, out, producer_idx) {
            replace_last_exec(op_to_remove, new_instr, out, producer_idx);
            return true;
        }
    }
    false
}

/// Fuses `dest = a - b` into the product behind one operand, if possible.
fn process_sub(dest: VReg, a: VReg, b: VReg, out: &mut Vec<VInstruction>, producer_idx: &mut FxHashMap<u32, usize>, use_count: &Vec<u32>)
    -> (fused: bool)
    requires
        producers_ok(state_of(old(out)@, *old(producer_idx))),
        counted(use_count@, a),
        mul_producer(state_of(old(out)@, *old(producer_idx)), use_count@, a) is None ==> counted(use_count@, b),
    ensures
        producers_ok(state_of(final(out)@, *final(producer_idx))),
        match sub_step(state_of(old(out)@, *old(producer_idx)), use_count@, dest, a, b) {
            Some(st2) => fused && state_of(final(out)@, *final(producer_idx)) == st2,
            None => !fused && final(out)@ == old(out)@ && *final(producer_idx) == *old(producer_idx),
        },
{
    if let Some(new_instr) = try_fuse_sub(dest, a, b, out, producer_idx, use_count) {
        let op_to_remove = if mul_operands(a, out, producer_idx, use_count).is_some() { a } else { b };
        if is_produced_last(op_to_remove, out, producer_idx) {
            replace_last_exec(op_to_remove, new_instr, out, producer_idx);
            return true;
        }
    }
    false
}

/// Fuses `dest = -src` into the product just written, if possible.
fn process_neg(dest: VReg, src: VReg, out: &mut Vec<VInstruction>, producer_idx: &mut FxHashMap<u32, usize>, use_count: &Vec<u32>)
    -> (fused: bool)
    requires
        producers_ok(state_of(old(out)@, *old(producer_idx))),
        counted(use_count@, src),
    ensures
        producers_ok(state_of(final(out)@, *final(producer_idx))),
        match neg_step(state_of(old(out)@, *old(producer_idx)), use_count@, dest, src) {
            Some(st2) => fused && state_of(final(out)@, *final(producer_idx)) == st2,
            None => !fused && final(out)@ == old(out)@ && *final(producer_idx) == *old(producer_idx),
        },
{
    match src {
        VReg::Temp(ts) => {
            if use_count[ts as usize] == 1 && is_produced_last(src, out, producer_idx) {
                let last_idx = out.len() - 1;
                let fused_instr = match &out[last_idx] {
                    VInstruction::Mul2 { a: ma, b: mb, .. } => Some(VInstruction::NegMul { dest, a: *ma, b: *mb }),
                    _ => None,
                };
                if let Some(ni) = fused_instr {
                    replace_last_exec(src, ni, out, producer_idx);
                    return true;
                }
            }
            false
        },
        _ => false,
    }
}

/// Fuses products into the sums, differences and negations that are their
/// only readers, when the product is the instruction just before.
///
/// `next_vreg` is the next free temporary: the use counts cover the
/// temporaries below it (below 1024 when it is not a temporary).
pub fn fuse_vir(instructions: Vec<VInstruction>, next_vreg: VReg) -> (r: Vec<VInstruction>)
    requires
        fusable_operands(instructions@, count_limit(next_vreg)),
        read_total(instructions@, instructions@.len() as int) <= u32::MAX,
    ensures
        r@ == fuse_vir_result(instructions@, next_vreg),
{
    if instructions.len() == 0 {
        return instructions;
    }
    let max_reg: usize = match next_vreg {
        VReg::Temp(t) => t as usize,
        _ => 1024,
    };
    let use_count = count_uses(&instructions, max_reg);
    let ghost s = instructions@;
    let ghost uc = use_count@;
    let mut out: Vec<VInstruction> = Vec::new();
    let mut producer_idx = producers_new();
    proof {
        assert(out@ =~= Seq::<VInstruction>::empty());
        assert(state_of(out@, producer_idx) == fuse_upto(s, uc, 0));
    }
    for instr in it: instructions.into_iter()
        invariant
            it.seq() == s,
            uc == use_count@,
            uc == use_counts(s, count_limit(next_vreg)),
            uc.len() == count_limit(next_vreg),
            fusable_operands(s, count_limit(next_vreg)),
            state_of(out@, producer_idx) == fuse_upto(s, uc, it.index() as int),
            producers_ok(state_of(out@, producer_idx)),
    {
        let ghost k = it.index() as int;
        let ghost st = state_of(out@, producer_idx);
        assert(instr == s[k]);
        assert(counts_cover(fuse_upto(s, uc, k), uc, s[k]));
        let fused = match &instr {
            VInstruction::Add2 { dest, a, b } => process_add2(*dest, *a, *b, &mut out, &mut producer_idx, &use_count),
            VInstruction::Sub { dest, a, b } => process_sub(*dest, *a, *b, &mut out, &mut producer_idx, &use_count),
            VInstruction::Neg { dest, src } => process_neg(*dest, *src, &mut out, &mut producer_idx, &use_count),
            _ => false,
        };
        if !fused {
            let cur_len = out.len();
            proof {
                lemma_append_ok(st, instr);
            }
            if let VReg::Temp(d) = instr.dest() {
                producers_insert(&mut producer_idx, d, out.len());
            }
            out.push(instr);
        }
        proof {
            assert(state_of(out@, producer_idx) == fuse_step(st, uc, s[k]));
        }
    }
    out
}

proof fn lemma_fuse_upto_len(s: Seq<VInstruction>, uc: Seq<u32>, k: int)
    requires
        0 <= k <= s.len(),
    ensures
        fuse_upto(s, uc, k).out.len() <= k,
    decreases k,
{
    if k > 0 {
        lemma_fuse_upto_len(s, uc, k - 1);
    }
}

/// Law: the fusion never lengthens a program.
pub proof fn law_vir_fusion_never_grows(s: Seq<VInstruction>, next_vreg: VReg)
    ensures
        fuse_vir_result(s, next_vreg).len() <= s.len(),
{
    if s.len() > 0 {
        lemma_fuse_upto_len(s, use_counts(s, count_limit(next_vreg)), s.len() as int);
    }
}

/// Whether `i` is a sum of two, a difference or a negation: the instructions
/// that a product can be fused into.
pub open spec fn fusion_site(i: VInstruction) -> bool {
    i is Add2 || i is Sub || i is Neg
}

proof fn lemma_fuse_upto_identity(s: Seq<VInstruction>, uc: Seq<u32>, k: int)
    requires
        0 <= k <= s.len(),
        forall|j: int| 0 <= j < s.len() ==> !fusion_site(#[trigger] s[j]),
    ensures
        fuse_upto(s, uc, k).out == s.subrange(0, k),
    decreases k,
{
    if k > 0 {
        lemma_fuse_upto_identity(s, uc, k - 1);
        assert(!fusion_site(s[k - 1]));
        assert(s.subrange(0, k - 1).push(s[k - 1]) =~= s.subrange(0, k));
    } else {
        assert(s.subrange(0, 0) =~= Seq::<VInstruction>::empty());
    }
}

/// Law: a program without sums of two, differences or negations comes out
/// of the fusion unchanged.
pub proof fn law_vir_fusion_keeps_programs_without_sites(s: Seq<VInstruction>, next_vreg: VReg)
    requires
        forall|j: int| 0 <= j < s.len() ==> !fusion_site(#[trigger] s[j]),
    ensures
        fuse_vir_result(s, next_vreg) == s,
{
    if s.len() > 0 {
        lemma_fuse_upto_identity(s, use_counts(s, count_limit(next_vreg)), s.len() as int);
        assert(s.subrange(0, s.len() as int) =~= s);
    }
}

// ---------------------------------------------------------------------------
// Shared denominators
// ---------------------------------------------------------------------------

/// A virtual register as a key of integers: its kind, then its number.
pub open spec fn vkey(r: VReg) -> (u8, u32) {
    match r {
        VReg::Param(p) => (0u8, p),
        VReg::Const(c) => (1u8, c),
        VReg::Temp(t) => (2u8, t),
    }
}

/// The key of a virtual register.
fn vkey_exec(r: VReg) -> (k: (u8, u32))
    ensures
        k == vkey(r),
{
    match r {
        VReg::Param(p) => (0u8, p),
        VReg::Const(c) => (1u8, c),
        VReg::Temp(t) => (2u8, t),
    }
}

proof fn lemma_vkey_injective(a: VReg, b: VReg)
    ensures
        vkey(a) == vkey(b) ==> a == b,
{
}

/// What a table of counts holds: register key to count.
pub uninterp spec fn key_counts(m: HashMap<(u8, u32), usize, FxBuildHasher>) -> Map<(u8, u32), usize>;

/// What a table of reciprocals holds: denominator key to the temporary that
/// holds its reciprocal.
pub uninterp spec fn key_recips(m: HashMap<(u8, u32), VReg, FxBuildHasher>) -> Map<(u8, u32), VReg>;

/// The table with no count.
pub open spec fn no_counts() -> Map<(u8, u32), usize> {
    Map::empty()
}

/// The table with no reciprocal.
pub open spec fn no_recips() -> Map<(u8, u32), VReg> {
    Map::empty()
}

/// `FxHashMap::default`: an empty table of counts.
#[verifier::external_body]
fn counts_new() -> (r: FxHashMap<(u8, u32), usize>)
    ensures
        key_counts(r) == no_counts(),
{
    FxHashMap::default()
}

/// `HashMap::get`, the count copied out.
#[verifier::external_body]
fn counts_get(m: &FxHashMap<(u8, u32), usize>, k: (u8, u32)) -> (r: Option<usize>)
    ensures
        match r {
            Some(c) => key_counts(*m).contains_key(k) && key_counts(*m)[k] == c,
            None => !key_counts(*m).contains_key(k),
        },
{
    m.get(&k).copied()
}

/// `HashMap::insert`: the count of `k` becomes `c`.
#[verifier::external_body]
fn counts_insert(m: &mut FxHashMap<(u8, u32), usize>, k: (u8, u32), c: usize)
    ensures
        key_counts(*final(m)) == key_counts(*old(m)).insert(k, c),
{
    m.insert(k, c);
}

/// `FxHashMap::default`: an empty table of reciprocals.
#[verifier::external_body]
fn recips_new() -> (r: FxHashMap<(u8, u32), VReg>)
    ensures
        key_recips(r) == no_recips(),
{
    FxHashMap::default()
}

/// `HashMap::get`, the register copied out.
#[verifier::external_body]
fn recips_get(m: &FxHashMap<(u8, u32), VReg>, k: (u8, u32)) -> (r: Option<VReg>)
    ensures
        match r {
            Some(v) => key_recips(*m).contains_key(k) && key_recips(*m)[k] == v,
            None => !key_recips(*m).contains_key(k),
        },
{
    m.get(&k).copied()
}

/// `HashMap::insert`: the reciprocal of `k` is held in `v`.
#[verifier::external_body]
fn recips_insert(m: &mut FxHashMap<(u8, u32), VReg>, k: (u8, u32), v: VReg)
    ensures
        key_recips(*final(m)) == key_recips(*old(m)).insert(k, v),
{
    m.insert(k, v);
}

/// How many of the first `k` instructions divide by `den`.
pub open spec fn div_count(s: Seq<VInstruction>, den: VReg, k: int) -> nat
    decreases k,
{
    if k <= 0 {
        0
    } else {
        div_count(s, den, k - 1) + (if s[k - 1] matches VInstruction::Div { den: d, .. } && d == den { 1nat } else { 0nat })
    }
}

/// How many of the first `k` instructions are divisions.
pub open spec fn div_total(s: Seq<VInstruction>, k: int) -> nat
    decreases k,
{
    if k <= 0 {
        0
    } else {
        div_total(s, k - 1) + (if s[k - 1] is Div { 1nat } else { 0nat })
    }
}

/// The rewriting state: output so far, next free temporary, and the
/// temporary holding the reciprocal of each denominator seen so far.
pub struct RecipState {
    pub out: Seq<VInstruction>,
    pub next: int,
    pub recips: Map<VReg, VReg>,
}

/// The state after instruction `i`: a division by a denominator that more
/// than one division of `s` shares becomes a multiplication by its
/// reciprocal, computed in a new temporary just before its first use.
pub open spec fn recip_step(st: RecipState, s: Seq<VInstruction>, i: VInstruction) -> RecipState {
    match i {
        VInstruction::Div { dest, num, den } => if div_count(s, den, s.len() as int) > 1 {
            if st.recips.contains_key(den) {
                RecipState {
                    out: st.out.push(VInstruction::Mul2 { dest, a: num, b: st.recips[den] }),
                    next: st.next,
                    recips: st.recips,
                }
            } else {
                let r = VReg::Temp(st.next as u32);
                RecipState {
                    out: st.out.push(VInstruction::Recip { dest: r, src: den }).push(VInstruction::Mul2 { dest, a: num, b: r }),
                    next: st.next + 1,
                    recips: st.recips.insert(den, r),
                }
            }
        } else {
            RecipState { out: st.out.push(i), next: st.next, recips: st.recips }
        },
        _ => RecipState { out: st.out.push(i), next: st.next, recips: st.recips },
    }
}

/// The state after the first `k` instructions of `s`, starting from the free temporary `next`.
pub open spec fn recip_upto(s: Seq<VInstruction>, next: u32, k: int) -> RecipState
    decreases k,
{
    if k <= 0 {
        RecipState { out: Seq::empty(), next: next as int, recips: Map::empty() }
    } else {
        recip_step(recip_upto(s, next, k - 1), s, s[k - 1])
    }
}

proof fn lemma_recip_next(s: Seq<VInstruction>, next: u32, k: int)
    requires
        0 <= k <= s.len(),
    ensures
        next <= recip_upto(s, next, k).next <= next + div_total(s, k),
    decreases k,
{
    if k > 0 {
        lemma_recip_next(s, next, k - 1);
    }
}

proof fn lemma_div_count_le(s: Seq<VInstruction>, den: VReg, j: int, k: int)
    requires
        0 <= j <= k <= s.len(),
    ensures
        div_count(s, den, j) <= div_count(s, den, k),
        div_count(s, den, k) <= div_count(s, den, j) + (k - j),
    decreases k - j,
{
    if j < k {
        lemma_div_count_le(s, den, j, k - 1);
    }
}

/// Replaces divisions that share a denominator by one reciprocal of it and
/// multiplications. Returns the instructions and the next free temporary.
pub fn optimize_div_to_recip(vinstrs: Vec<VInstruction>, next_vreg: u32) -> (r: (Vec<VInstruction>, u32))
    requires
        next_vreg + div_total(vinstrs@, vinstrs@.len() as int) <= u32::MAX,
    ensures
        r.0@ == recip_upto(vinstrs@, next_vreg, vinstrs@.len() as int).out,
        r.1 == recip_upto(vinstrs@, next_vreg, vinstrs@.len() as int).next,
{
    let ghost s = vinstrs@;
    let n = vinstrs.len();
    let mut den_counts = counts_new();
    let mut i: usize = 0;
    while i < n
        invariant
            i <= n,
            n == s.len(),
            s == vinstrs@,
            forall|d: VReg| #[trigger] key_counts(den_counts).contains_key(vkey(d)) <==> div_count(s, d, i as int) > 0,
            forall|d: VReg| key_counts(den_counts).contains_key(vkey(d)) ==>
                #[trigger] key_counts(den_counts)[vkey(d)] == div_count(s, d, i as int),
            forall|k: (u8, u32)| #[trigger] key_counts(den_counts).contains_key(k) ==> (k.0 == 0 || k.0 == 1 || k.0 == 2),
        decreases n - i,
    {
        if let VInstruction::Div { den, .. } = &vinstrs[i] {
            let key = vkey_exec(*den);
            proof {
                lemma_div_count_le(s, *den, i as int, n as int);
            }
            let c = match counts_get(&den_counts, key) {
                Some(c) => c,
                None => 0,
            };
            proof {
                lemma_div_count_le(s, *den, 0, i as int);
            }
            counts_insert(&mut den_counts, key, c + 1);
            proof {
                assert forall|d: VReg| #[trigger] key_counts(den_counts).contains_key(vkey(d)) <==> div_count(s, d, i + 1) > 0 by {
                    lemma_vkey_injective(d, *den);
                }
                assert forall|d: VReg| key_counts(den_counts).contains_key(vkey(d)) implies
                    #[trigger] key_counts(den_counts)[vkey(d)] == div_count(s, d, i + 1) by {
                    lemma_vkey_injective(d, *den);
                }
            }
        }
        i = i + 1;
    }
    let mut optimized: Vec<VInstruction> = Vec::new();
    let mut current_next_vreg: u32 = next_vreg;
    let mut recips_created = recips_new();
    proof {
        assert(optimized@ =~= Seq::<VInstruction>::empty());
    }
    for instr in it: vinstrs.into_iter()
        invariant
            it.seq() == s,
            n == s.len(),
            next_vreg + div_total(s, n as int) <= u32::MAX,
            forall|d: VReg| #[trigger] key_counts(den_counts).contains_key(vkey(d)) <==> div_count(s, d, n as int) > 0,
            forall|d: VReg| key_counts(den_counts).contains_key(vkey(d)) ==>
                #[trigger] key_counts(den_counts)[vkey(d)] == div_count(s, d, n as int),
            optimized@ == recip_upto(s, next_vreg, it.index() as int).out,
            current_next_vreg == recip_upto(s, next_vreg, it.index() as int).next,
            forall|d: VReg| #[trigger] key_recips(recips_created).contains_key(vkey(d))
                <==> recip_upto(s, next_vreg, it.index() as int).recips.contains_key(d),
            forall|d: VReg| key_recips(recips_created).contains_key(vkey(d)) ==>
                #[trigger] key_recips(recips_created)[vkey(d)] == recip_upto(s, next_vreg, it.index() as int).recips[d],
    {
        let ghost k = it.index() as int;
        assert(instr == s[k]);
        proof {
            lemma_recip_next(s, next_vreg, k);
            lemma_div_total_mono(s, k + 1, n as int);
        }
        let shared = match &instr {
            VInstruction::Div { den, .. } => match counts_get(&den_counts, vkey_exec(*den)) {
                Some(c) => c > 1,
                None => false,
            },
            _ => false,
        };
        if shared {
            if let VInstruction::Div { dest, num, den } = instr {
                let key = vkey_exec(den);
                let recip_reg = match recips_get(&recips_created, key) {
                    Some(r) => r,
                    None => {
                        let reg = VReg::Temp(current_next_vreg);
                        current_next_vreg = current_next_vreg + 1;
                        optimized.push(VInstruction::Recip { dest: reg, src: den });
                        recips_insert(&mut recips_created, key, reg);
                        reg
                    },
                };
                optimized.push(VInstruction::Mul2 { dest, a: num, b: recip_reg });
                proof {
                    assert forall|d: VReg| #[trigger] key_recips(recips_created).contains_key(vkey(d))
                        <==> recip_upto(s, next_vreg, k + 1).recips.contains_key(d) by {
                        lemma_vkey_injective(d, den);
                    }
                    assert forall|d: VReg| key_recips(recips_created).contains_key(vkey(d)) implies
                        #[trigger] key_recips(recips_created)[vkey(d)] == recip_upto(s, next_vreg, k + 1).recips[d] by {
                        lemma_vkey_injective(d, den);
                    }
                }
            }
        } else {
            optimized.push(instr);
        }
    }
    (optimized, current_next_vreg)
}

proof fn lemma_div_total_mono(s: Seq<VInstruction>, j: int, k: int)
    requires
        j <= k,
    ensures
        div_total(s, j) <= div_total(s, k),
    decreases k - j,
{
    if j < k {
        lemma_div_total_mono(s, j, k - 1);
    }
}

/// Whether no division of `out` divides by a denominator that more than one
/// division of `s` shares.
pub open spec fn no_shared_division(out: Seq<VInstruction>, s: Seq<VInstruction>) -> bool {
    forall|j: int| 0 <= j < out.len() ==>
        (#[trigger] out[j] matches VInstruction::Div { den, .. } ==> div_count(s, den, s.len() as int) <= 1)
}

proof fn lemma_recip_upto_no_shared(s: Seq<VInstruction>, next: u32, k: int)
    requires
        0 <= k <= s.len(),
    ensures
        no_shared_division(recip_upto(s, next, k).out, s),
    decreases k,
{
    if k > 0 {
        lemma_recip_upto_no_shared(s, next, k - 1);
        let st = recip_upto(s, next, k - 1);
        let st2 = recip_upto(s, next, k);
        assert forall|j: int| 0 <= j < st2.out.len() implies
            (#[trigger] st2.out[j] matches VInstruction::Div { den, .. } ==> div_count(s, den, s.len() as int) <= 1) by {
            if j < st.out.len() {
                assert(st2.out[j] == st.out[j]);
            }
        }
    }
}

/// Law: after the rewriting, no division divides by a denominator that more
/// than one division of the program shared.
pub proof fn law_no_shared_denominator_left(s: Seq<VInstruction>, next: u32)
    ensures
        no_shared_division(recip_upto(s, next, s.len() as int).out, s),
{
    lemma_recip_upto_no_shared(s, next, s.len() as int);
}

// ---------------------------------------------------------------------------
// What fused instructions compute
// ---------------------------------------------------------------------------

/// What an arithmetic instruction computes when each register `r` holds the
/// integer `env(r)`; `None` for the other operations.
pub open spec fn int_value(i: VInstruction, env: spec_fn(VReg) -> int) -> Option<int> {
    match i {
        VInstruction::Add2 { a, b, .. } => Some(env(a) + env(b)),
        VInstruction::Sub { a, b, .. } => Some(env(a) - env(b)),
        VInstruction::Mul2 { a, b, .. } => Some(env(a) * env(b)),
        VInstruction::Neg { src, .. } => Some(-env(src)),
        VInstruction::NegMul { a, b, .. } => Some(-(env(a) * env(b))),
        VInstruction::MulAdd { a, b, c, .. } => Some(env(a) * env(b) + env(c)),
        VInstruction::MulSub { a, b, c, .. } => Some(env(a) * env(b) - env(c)),
        VInstruction::NegMulAdd { a, b, c, .. } => Some(-(env(a) * env(b)) + env(c)),
        VInstruction::NegMulSub { a, b, c, .. } => Some(-(env(a) * env(b)) - env(c)),
        _ => None,
    }
}

/// Whether every temporary whose producer the state records holds what that
/// producer computes.
pub open spec fn env_agrees(st: FuseState, env: spec_fn(VReg) -> int) -> bool {
    forall|t: u32| #[trigger] st.prod.contains_key(t) ==>
        (int_value(st.out[st.prod[t] as int], env) matches Some(v) ==> v == env(VReg::Temp(t)))
}

/// Law: the instruction that fuses `dest = a + b` computes `a + b`. For every
/// integer value of the registers, where each recorded product holds its
/// value, the fused instruction writes `dest` with the value `env(a) + env(b)`.
pub proof fn law_fused_add_keeps_value(st: FuseState, uc: Seq<u32>, dest: VReg, a: VReg, b: VReg, env: spec_fn(VReg) -> int)
    requires
        env_agrees(st, env),
        fused_add(st, uc, dest, a, b) is Some,
    ensures
        vdest_of(fused_add(st, uc, dest, a, b)->0) == dest,
        int_value(fused_add(st, uc, dest, a, b)->0, env) == Some(env(a) + env(b)),
{
    if let VReg::Temp(t) = a {
        if st.prod.contains_key(t) {
            assert(int_value(st.out[st.prod[t] as int], env) matches Some(v) ==> v == env(VReg::Temp(t)));
        }
    }
    if let VReg::Temp(t) = b {
        if st.prod.contains_key(t) {
            assert(int_value(st.out[st.prod[t] as int], env) matches Some(v) ==> v == env(VReg::Temp(t)));
        }
    }
}

/// Law: the instruction that fuses `dest = a - b` computes `a - b`, in the
/// same sense: whichever operand the product stands behind, the fused
/// instruction's value is `env(a) - env(b)`.
pub proof fn law_fused_sub_keeps_value(st: FuseState, uc: Seq<u32>, dest: VReg, a: VReg, b: VReg, env: spec_fn(VReg) -> int)
    requires
        env_agrees(st, env),
        fused_sub(st, uc, dest, a, b) is Some,
    ensures
        vdest_of(fused_sub(st, uc, dest, a, b)->0) == dest,
        int_value(fused_sub(st, uc, dest, a, b)->0, env) == Some(env(a) - env(b)),
{
    if let VReg::Temp(t) = a {
        if st.prod.contains_key(t) {
            assert(int_value(st.out[st.prod[t] as int], env) matches Some(v) ==> v == env(VReg::Temp(t)));
        }
    }
    if let VReg::Temp(t) = b {
        if st.prod.contains_key(t) {
            assert(int_value(st.out[st.prod[t] as int], env) matches Some(v) ==> v == env(VReg::Temp(t)));
        }
    }
}

/// Whether every shared denominator's reciprocal register is written, in the
/// output so far, by a reciprocal of that denominator.
pub open spec fn recips_written(st: RecipState) -> bool {
    forall|d: VReg| #[trigger] st.recips.contains_key(d) ==>
        exists|j: int| 0 <= j < st.out.len() && st.out[j] == (VInstruction::Recip { dest: st.recips[d], src: d })
}

proof fn lemma_recips_written(s: Seq<VInstruction>, next: u32, k: int)
    requires
        0 <= k <= s.len(),
    ensures
        recips_written(recip_upto(s, next, k)),
    decreases k,
{
    if k > 0 {
        lemma_recips_written(s, next, k - 1);
        let st = recip_upto(s, next, k - 1);
        let st2 = recip_upto(s, next, k);
        assert forall|d: VReg| #[trigger] st2.recips.contains_key(d) implies
            exists|j: int| 0 <= j < st2.out.len() && st2.out[j] == (VInstruction::Recip { dest: st2.recips[d], src: d }) by {
            if st.recips.contains_key(d) && st2.recips[d] == st.recips[d] {
                let j = choose|j: int| 0 <= j < st.out.len() && st.out[j] == (VInstruction::Recip { dest: st.recips[d], src: d });
                assert(st2.out[j] == st.out[j]);
            } else {
                assert(st2.out[st.out.len() as int] == (VInstruction::Recip { dest: st2.recips[d], src: d }));
            }
        }
    }
}

/// Law: a division either stays as it is, or becomes the product of its
/// numerator and a register that an earlier instruction of the output wrote
/// as the reciprocal of the same denominator: `n / d` becomes `n * (1/d)`.
pub proof fn law_divisions_become_products_by_reciprocals(s: Seq<VInstruction>, next: u32, k: int)
    requires
        0 <= k < s.len(),
        s[k] is Div,
    ensures
        ({
            let st2 = recip_upto(s, next, k + 1);
            match s[k] {
                VInstruction::Div { dest, num, den } => {
                    ||| st2.out.last() == s[k]
                    ||| st2.out.last() matches VInstruction::Mul2 { dest: d2, a, b } && d2 == dest && a == num
                        && exists|j: int| 0 <= j < st2.out.len() - 1 && st2.out[j] == (VInstruction::Recip { dest: b, src: den })
                },
                _ => true,
            }
        }),
{
    lemma_recips_written(s, next, k);
    let st = recip_upto(s, next, k);
    let st2 = recip_upto(s, next, k + 1);
    if let VInstruction::Div { dest, num, den } = s[k] {
        if div_count(s, den, s.len() as int) > 1 {
            if st.recips.contains_key(den) {
                let j = choose|j: int| 0 <= j < st.out.len() && st.out[j] == (VInstruction::Recip { dest: st.recips[den], src: den });
                assert(st2.out[j] == st.out[j]);
            } else {
                assert(st2.out[st.out.len() as int] == (VInstruction::Recip { dest: VReg::Temp(st.next as u32), src: den }));
            }
        }
    }
}

} // verus!
