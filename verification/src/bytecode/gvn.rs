//! Local value numbering over virtual registers: an instruction that
//! computes what an earlier kept instruction computes is dropped, and every
//! later read of its register, and the result register, read the earlier one.
//!
//! Two instructions compute the same thing when they have the same operation
//! and read the same registers, after renaming, in the same order; for sums
//! and products the order does not matter, only how often each register is
//! read. A kept instruction keeps its renamed operands in their order.

use vstd::prelude::*;
use super::vir::{VInstruction, VReg, VKind, VModel, vmodel, vkind, vdest_of, vreads_of};
use super::vir_fusion::occurrences;
use super::compile::models_of;

verus! {

/// Operations whose operands may be read in any order.
pub open spec fn commutative(k: VKind) -> bool {
    k is Add || k is Add2 || k is Mul || k is Mul2
}

/// Whether two instructions compute the same value from the same registers.
pub open spec fn same_value(a: VModel, b: VModel) -> bool {
    &&& a.kind == b.kind
    &&& if commutative(a.kind) {
            forall|r: VReg| #[trigger] occurrences(a.reads, r) == occurrences(b.reads, r)
        } else {
            a.reads == b.reads
        }
}

/// A register after renaming: a temporary that an earlier instruction was
/// found to duplicate reads that instruction's register.
pub open spec fn rename(alias: Map<u32, VReg>, r: VReg) -> VReg {
    match r {
        VReg::Temp(t) => if alias.contains_key(t) { alias[t] } else { r },
        _ => r,
    }
}

/// Registers after renaming.
pub open spec fn renamed(alias: Map<u32, VReg>, rs: Seq<VReg>) -> Seq<VReg> {
    rs.map_values(|r: VReg| rename(alias, r))
}

/// The first kept instruction that computes what `m` computes, or -1.
pub open spec fn first_match(kept: Seq<VModel>, m: VModel) -> int
    decreases kept.len(),
{
    if kept.len() == 0 {
        -1
    } else {
        let k = first_match(kept.drop_last(), m);
        if k >= 0 {
            k
        } else if same_value(kept.last(), m) {
            kept.len() - 1
        } else {
            -1
        }
    }
}

/// The instructions kept so far and the renaming found so far.
pub struct Numbering {
    pub kept: Seq<VModel>,
    pub alias: Map<u32, VReg>,
}

/// One instruction: its reads renamed, then dropped in favour of an earlier
/// kept instruction computing the same, or kept.
pub open spec fn number_step(st: Numbering, i: VInstruction) -> Numbering {
    let m = VModel { kind: vkind(i), dest: vdest_of(i), reads: renamed(st.alias, vreads_of(i)) };
    let k = first_match(st.kept, m);
    if k >= 0 {
        match vdest_of(i) {
            VReg::Temp(t) => Numbering { kept: st.kept, alias: st.alias.insert(t, st.kept[k].dest) },
            _ => st,
        }
    } else {
        Numbering { kept: st.kept.push(m), alias: st.alias }
    }
}

/// The numbering after the first `k` instructions.
pub open spec fn number_upto(s: Seq<VInstruction>, k: int) -> Numbering
    decreases k,
{
    if k <= 0 {
        Numbering { kept: Seq::empty(), alias: Map::empty() }
    } else {
        number_step(number_upto(s, k - 1), s[k - 1])
    }
}

/// The kept instructions, and the result register after renaming.
pub open spec fn gvn_result(s: Seq<VInstruction>, final_vreg: Option<VReg>) -> (Seq<VModel>, Option<VReg>) {
    let st = number_upto(s, s.len() as int);
    (st.kept, match final_vreg { Some(f) => Some(rename(st.alias, f)), None => None })
}

/// Every instruction writes a temporary of its own.
pub open spec fn dests_distinct_temps(s: Seq<VInstruction>) -> bool {
    &&& forall|k: int| 0 <= k < s.len() ==> #[trigger] vdest_of(s[k]) is Temp
    &&& forall|j: int, k: int| 0 <= j < k < s.len() ==> #[trigger] vdest_of(s[j]) != #[trigger] vdest_of(s[k])
}

/// `first_match` is the first kept instruction computing the same, -1 when there is none.
proof fn lemma_first_match(kept: Seq<VModel>, m: VModel)
    ensures
        -1 <= first_match(kept, m) < kept.len(),
        first_match(kept, m) >= 0 ==> same_value(kept[first_match(kept, m)], m),
        forall|j: int| 0 <= j < kept.len() && (first_match(kept, m) < 0 || j < first_match(kept, m))
            ==> !same_value(#[trigger] kept[j], m),
    decreases kept.len(),
{
    if kept.len() > 0 {
        let t = kept.drop_last();
        lemma_first_match(t, m);
        if first_match(t, m) >= 0 {
            assert(t[first_match(t, m)] == kept[first_match(t, m)]);
        }
        assert forall|j: int| 0 <= j < kept.len() && (first_match(kept, m) < 0 || j < first_match(kept, m))
            implies !same_value(#[trigger] kept[j], m) by {
            if j < t.len() {
                assert(t[j] == kept[j]);
            }
        }
    }
}

/// A register read a positive number of times occurs in the list.
proof fn lemma_occurs(rs: Seq<VReg>, r: VReg)
    ensures
        occurrences(rs, r) > 0 ==> exists|j: int| 0 <= j < rs.len() && rs[j] == r,
    decreases rs.len(),
{
    if rs.len() > 0 {
        lemma_occurs(rs.drop_last(), r);
        if occurrences(rs.drop_last(), r) > 0 {
            let j = choose|j: int| 0 <= j < rs.drop_last().len() && rs.drop_last()[j] == r;
            assert(rs[j] == r);
        }
    }
}

/// How often `x` occurs in `v`.
fn count_exec(v: &Vec<VReg>, x: VReg) -> (r: u64)
    requires
        v@.len() <= u64::MAX,
    ensures
        r == occurrences(v@, x),
{
    let mut c: u64 = 0;
    let mut i: usize = 0;
    while i < v.len()
        invariant
            i <= v@.len(),
            v@.len() <= u64::MAX,
            c == occurrences(v@.take(i as int), x),
            c <= i,
        decreases v.len() - i,
    {
        proof {
            assert(v@.take(i + 1).drop_last() =~= v@.take(i as int));
        }
        if v[i] == x {
            c = c + 1;
        }
        i = i + 1;
    }
    proof {
        assert(v@.take(v@.len() as int) =~= v@);
    }
    c
}

/// Whether `a` and `b` read each register equally often.
fn same_counts(a: &Vec<VReg>, b: &Vec<VReg>) -> (r: bool)
    requires
        a@.len() <= u64::MAX,
        b@.len() <= u64::MAX,
    ensures
        r == (forall|x: VReg| #[trigger] occurrences(a@, x) == occurrences(b@, x)),
{
    let mut i: usize = 0;
    while i < a.len()
        invariant
            i <= a@.len(),
            a@.len() <= u64::MAX,
            b@.len() <= u64::MAX,
            forall|j: int| 0 <= j < i ==> occurrences(a@, #[trigger] a@[j]) == occurrences(b@, a@[j]),
        decreases a.len() - i,
    {
        if count_exec(a, a[i]) != count_exec(b, a[i]) {
            return false;
        }
        i = i + 1;
    }
    let mut k: usize = 0;
    while k < b.len()
        invariant
            k <= b@.len(),
            a@.len() <= u64::MAX,
            b@.len() <= u64::MAX,
            forall|j: int| 0 <= j < a@.len() ==> occurrences(a@, #[trigger] a@[j]) == occurrences(b@, a@[j]),
            forall|j: int| 0 <= j < k ==> occurrences(a@, #[trigger] b@[j]) == occurrences(b@, b@[j]),
        decreases b.len() - k,
    {
        if count_exec(a, b[k]) != count_exec(b, b[k]) {
            return false;
        }
        k = k + 1;
    }
    proof {
        assert forall|x: VReg| #[trigger] occurrences(a@, x) == occurrences(b@, x) by {
            lemma_occurs(a@, x);
            lemma_occurs(b@, x);
        }
    }
    true
}

/// Whether `a` and `b` hold the same registers in the same order.
fn same_regs(a: &Vec<VReg>, b: &Vec<VReg>) -> (r: bool)
    ensures
        r == (a@ == b@),
{
    if a.len() != b.len() {
        return false;
    }
    let mut i: usize = 0;
    while i < a.len()
        invariant
            i <= a@.len(),
            a@.len() == b@.len(),
            forall|j: int| 0 <= j < i ==> a@[j] == b@[j],
        decreases a.len() - i,
    {
        if a[i] != b[i] {
            return false;
        }
        i = i + 1;
    }
    proof {
        assert(a@ =~= b@);
    }
    true
}

/// Whether two instructions have the same operation.
fn same_kind(a: &VInstruction, b: &VInstruction) -> (r: bool)
    ensures
        r == (vkind(*a) == vkind(*b)),
{
    match (a, b) {
        (VInstruction::Add { .. }, VInstruction::Add { .. }) => true,
        (VInstruction::Add2 { .. }, VInstruction::Add2 { .. }) => true,
        (VInstruction::Mul { .. }, VInstruction::Mul { .. }) => true,
        (VInstruction::Mul2 { .. }, VInstruction::Mul2 { .. }) => true,
        (VInstruction::Sub { .. }, VInstruction::Sub { .. }) => true,
        (VInstruction::Div { .. }, VInstruction::Div { .. }) => true,
        (VInstruction::Pow { .. }, VInstruction::Pow { .. }) => true,
        (VInstruction::Neg { .. }, VInstruction::Neg { .. }) => true,
        (VInstruction::NegMul { .. }, VInstruction::NegMul { .. }) => true,
        (VInstruction::BuiltinFun { op: x, .. }, VInstruction::BuiltinFun { op: y, .. }) => *x == *y,
        (VInstruction::Builtin1 { op: x, .. }, VInstruction::Builtin1 { op: y, .. }) => *x == *y,
        (VInstruction::Builtin2 { op: x, .. }, VInstruction::Builtin2 { op: y, .. }) => *x == *y,
        (VInstruction::Square { .. }, VInstruction::Square { .. }) => true,
        (VInstruction::Cube { .. }, VInstruction::Cube { .. }) => true,
        (VInstruction::Pow4 { .. }, VInstruction::Pow4 { .. }) => true,
        (VInstruction::Pow3_2 { .. }, VInstruction::Pow3_2 { .. }) => true,
        (VInstruction::InvPow3_2 { .. }, VInstruction::InvPow3_2 { .. }) => true,
        (VInstruction::InvSqrt { .. }, VInstruction::InvSqrt { .. }) => true,
        (VInstruction::InvSquare { .. }, VInstruction::InvSquare { .. }) => true,
        (VInstruction::InvCube { .. }, VInstruction::InvCube { .. }) => true,
        (VInstruction::Recip { .. }, VInstruction::Recip { .. }) => true,
        (VInstruction::Powi { n: x, .. }, VInstruction::Powi { n: y, .. }) => *x == *y,
        (VInstruction::MulAdd { .. }, VInstruction::MulAdd { .. }) => true,
        (VInstruction::MulSub { .. }, VInstruction::MulSub { .. }) => true,
        (VInstruction::NegMulAdd { .. }, VInstruction::NegMulAdd { .. }) => true,
        (VInstruction::NegMulSub { .. }, VInstruction::NegMulSub { .. }) => true,
        (VInstruction::RecipExpm1 { .. }, VInstruction::RecipExpm1 { .. }) => true,
        (VInstruction::ExpSqr { .. }, VInstruction::ExpSqr { .. }) => true,
        (VInstruction::ExpSqrNeg { .. }, VInstruction::ExpSqrNeg { .. }) => true,
        _ => false,
    }
}

/// The instruction with its reads replaced by `rs`.
fn with_reads(i: &VInstruction, rs: Vec<VReg>) -> (r: VInstruction)
    requires
        rs@.len() == vreads_of(*i).len(),
    ensures
        vmodel(r) == (VModel { kind: vkind(*i), dest: vdest_of(*i), reads: rs@ }),
{
    let r = match i {
        VInstruction::Add { dest, srcs } => VInstruction::Add { dest: *dest, srcs: rs },
        VInstruction::Add2 { dest, .. } => VInstruction::Add2 { dest: *dest, a: rs[0], b: rs[1] },
        VInstruction::Mul { dest, srcs } => VInstruction::Mul { dest: *dest, srcs: rs },
        VInstruction::Mul2 { dest, .. } => VInstruction::Mul2 { dest: *dest, a: rs[0], b: rs[1] },
        VInstruction::Sub { dest, .. } => VInstruction::Sub { dest: *dest, a: rs[0], b: rs[1] },
        VInstruction::Div { dest, .. } => VInstruction::Div { dest: *dest, num: rs[0], den: rs[1] },
        VInstruction::Pow { dest, .. } => VInstruction::Pow { dest: *dest, base: rs[0], exp: rs[1] },
        VInstruction::Neg { dest, .. } => VInstruction::Neg { dest: *dest, src: rs[0] },
        VInstruction::NegMul { dest, .. } => VInstruction::NegMul { dest: *dest, a: rs[0], b: rs[1] },
        VInstruction::BuiltinFun { dest, op, args } => VInstruction::BuiltinFun { dest: *dest, op: *op, args: rs },
        VInstruction::Builtin1 { dest, op, .. } => VInstruction::Builtin1 { dest: *dest, op: *op, arg: rs[0] },
        VInstruction::Builtin2 { dest, op, .. } => VInstruction::Builtin2 { dest: *dest, op: *op, arg1: rs[0], arg2: rs[1] },
        VInstruction::Square { dest, .. } => VInstruction::Square { dest: *dest, src: rs[0] },
        VInstruction::Cube { dest, .. } => VInstruction::Cube { dest: *dest, src: rs[0] },
        VInstruction::Pow4 { dest, .. } => VInstruction::Pow4 { dest: *dest, src: rs[0] },
        VInstruction::Pow3_2 { dest, .. } => VInstruction::Pow3_2 { dest: *dest, src: rs[0] },
        VInstruction::InvPow3_2 { dest, .. } => VInstruction::InvPow3_2 { dest: *dest, src: rs[0] },
        VInstruction::InvSqrt { dest, .. } => VInstruction::InvSqrt { dest: *dest, src: rs[0] },
        VInstruction::InvSquare { dest, .. } => VInstruction::InvSquare { dest: *dest, src: rs[0] },
        VInstruction::InvCube { dest, .. } => VInstruction::InvCube { dest: *dest, src: rs[0] },
        VInstruction::Recip { dest, .. } => VInstruction::Recip { dest: *dest, src: rs[0] },
        VInstruction::Powi { dest, n, .. } => VInstruction::Powi { dest: *dest, src: rs[0], n: *n },
        VInstruction::MulAdd { dest, .. } => VInstruction::MulAdd { dest: *dest, a: rs[0], b: rs[1], c: rs[2] },
        VInstruction::MulSub { dest, .. } => VInstruction::MulSub { dest: *dest, a: rs[0], b: rs[1], c: rs[2] },
        VInstruction::NegMulAdd { dest, .. } => VInstruction::NegMulAdd { dest: *dest, a: rs[0], b: rs[1], c: rs[2] },
        VInstruction::NegMulSub { dest, .. } => VInstruction::NegMulSub { dest: *dest, a: rs[0], b: rs[1], c: rs[2] },
        VInstruction::RecipExpm1 { dest, .. } => VInstruction::RecipExpm1 { dest: *dest, src: rs[0] },
        VInstruction::ExpSqr { dest, .. } => VInstruction::ExpSqr { dest: *dest, src: rs[0] },
        VInstruction::ExpSqrNeg { dest, .. } => VInstruction::ExpSqrNeg { dest: *dest, src: rs[0] },
    };
    proof {
        assert(vreads_of(r) =~= rs@);
    }
    r
}

/// A register after renaming, where `alias` holds the pairs of `am`.
fn rename_exec(alias: &Vec<(u32, VReg)>, r: VReg, Ghost(am): Ghost<Map<u32, VReg>>) -> (out: VReg)
    requires
        forall|j: int| 0 <= j < alias@.len() ==> #[trigger] am.contains_key(alias@[j].0) && am[alias@[j].0] == alias@[j].1,
        forall|t: u32| #[trigger] am.contains_key(t) ==> exists|j: int| 0 <= j < alias@.len() && alias@[j].0 == t,
    ensures
        out == rename(am, r),
{
    match r {
        VReg::Temp(t) => {
            let mut j: usize = 0;
            while j < alias.len()
                invariant
                    j <= alias@.len(),
                    forall|q: int| 0 <= q < j ==> alias@[q].0 != t,
                    r == VReg::Temp(t),
                    forall|q: int| 0 <= q < alias@.len() ==> #[trigger] am.contains_key(alias@[q].0) && am[alias@[q].0] == alias@[q].1,
                    forall|u: u32| #[trigger] am.contains_key(u) ==> exists|q: int| 0 <= q < alias@.len() && alias@[q].0 == u,
                decreases alias.len() - j,
            {
                if alias[j].0 == t {
                    assert(am.contains_key(alias@[j as int].0));
                    return alias[j].1;
                }
                j = j + 1;
            }
            r
        },
        _ => r,
    }
}

/// The first instruction of `out` that computes what `m` computes.
fn find_same(out: &Vec<VInstruction>, m: &VInstruction) -> (r: Option<usize>)
    requires
        forall|q: int| 0 <= q < out@.len() ==> #[trigger] vreads_of(out@[q]).len() <= u64::MAX,
        vreads_of(*m).len() <= u64::MAX,
    ensures
        match r {
            Some(j) => j as int == first_match(models_of(out@), vmodel(*m)),
            None => first_match(models_of(out@), vmodel(*m)) < 0,
        },
{
    let ghost kept = models_of(out@);
    let ghost mm = vmodel(*m);
    proof {
        lemma_first_match(kept, mm);
    }
    let mut j: usize = 0;
    while j < out.len()
        invariant
            j <= out@.len(),
            kept == models_of(out@),
            mm == vmodel(*m),
            forall|q: int| 0 <= q < j ==> !same_value(#[trigger] kept[q], mm),
            forall|q: int| 0 <= q < out@.len() ==> #[trigger] vreads_of(out@[q]).len() <= u64::MAX,
            vreads_of(*m).len() <= u64::MAX,
            -1 <= first_match(kept, mm) < kept.len(),
            first_match(kept, mm) >= 0 ==> same_value(kept[first_match(kept, mm)], mm),
            forall|q: int| 0 <= q < kept.len() && (first_match(kept, mm) < 0 || q < first_match(kept, mm))
                ==> !same_value(#[trigger] kept[q], mm),
        decreases out.len() - j,
    {
        assert(kept[j as int] == vmodel(out@[j as int]));
        let a = out[j].reads();
        let b = m.reads();
        let sk = same_kind(&out[j], m);
        let same = if sk {
            if is_commutative(m) { same_counts(&a, &b) } else { same_regs(&a, &b) }
        } else {
            false
        };
        proof {
            if !same && sk && commutative(vkind(*m)) {
                let x = choose|x: VReg| occurrences(a@, x) != occurrences(b@, x);
                assert(occurrences(kept[j as int].reads, x) != occurrences(mm.reads, x));
            }
        }
        if same {
            return Some(j);
        }
        j = j + 1;
    }
    None
}

/// Drops every instruction that computes what an earlier kept one computes,
/// and reads the earlier register in its place, as `gvn_result` says.
pub fn number_values(vinstrs: Vec<VInstruction>, final_vreg: Option<VReg>) -> (r: (Vec<VInstruction>, Option<VReg>))
    requires
        dests_distinct_temps(vinstrs@),
        forall|k: int| 0 <= k < vinstrs@.len() ==> #[trigger] vreads_of(vinstrs@[k]).len() <= u64::MAX,
    ensures
        (models_of(r.0@), r.1) == gvn_result(vinstrs@, final_vreg),
{
    let ghost s = vinstrs@;
    let mut out: Vec<VInstruction> = Vec::new();
    let mut alias: Vec<(u32, VReg)> = Vec::new();
    let ghost mut am: Map<u32, VReg> = Map::empty();
    let mut k: usize = 0;
    proof {
        assert(models_of(out@) =~= Seq::<VModel>::empty());
    }
    while k < vinstrs.len()
        invariant
            k <= s.len(),
            s == vinstrs@,
            dests_distinct_temps(s),
            forall|q: int| 0 <= q < s.len() ==> #[trigger] vreads_of(s[q]).len() <= u64::MAX,
            number_upto(s, k as int) == (Numbering { kept: models_of(out@), alias: am }),
            forall|j: int| 0 <= j < alias@.len() ==> #[trigger] am.contains_key(alias@[j].0) && am[alias@[j].0] == alias@[j].1,
            forall|t: u32| #[trigger] am.contains_key(t) ==> exists|j: int| 0 <= j < alias@.len() && alias@[j].0 == t,
            forall|t: u32| #[trigger] am.contains_key(t) ==> exists|q: int| 0 <= q < k && vdest_of(s[q]) == VReg::Temp(t),
            forall|q: int| 0 <= q < out@.len() ==> #[trigger] vreads_of(out@[q]).len() <= u64::MAX,
        decreases s.len() - k,
    {
        let instr = &vinstrs[k];
        let reads = instr.reads();
        let mut rs: Vec<VReg> = Vec::new();
        let mut q: usize = 0;
        while q < reads.len()
            invariant
                q <= reads@.len(),
                rs@ == renamed(am, reads@).take(q as int),
                forall|j: int| 0 <= j < alias@.len() ==> #[trigger] am.contains_key(alias@[j].0) && am[alias@[j].0] == alias@[j].1,
                forall|t: u32| #[trigger] am.contains_key(t) ==> exists|j: int| 0 <= j < alias@.len() && alias@[j].0 == t,
            decreases reads.len() - q,
        {
            let x = rename_exec(&alias, reads[q], Ghost(am));
            rs.push(x);
            proof {
                assert(rs@ =~= renamed(am, reads@).take(q + 1));
            }
            q = q + 1;
        }
        proof {
            assert(rs@ =~= renamed(am, reads@));
        }
        let m = with_reads(instr, rs);
        let ghost mm = vmodel(m);
        let ghost kept = models_of(out@);
        proof {
            lemma_first_match(kept, mm);
        }
        let found = find_same(&out, &m);
        let ghost before = number_upto(s, k as int);
        match found {
            Some(j) => {
                let d = instr.dest();
                let target = out[j].dest();
                match d {
                    VReg::Temp(t) => {
                        proof {
                            assert(vdest_of(s[k as int]) == VReg::Temp(t));
                            if am.contains_key(t) {
                                let q = choose|q: int| 0 <= q < k && vdest_of(s[q]) == VReg::Temp(t);
                                assert(vdest_of(s[q]) != vdest_of(s[k as int]));
                            }
                        }
                        let ghost al0 = alias@;
                        alias.push((t, target));
                        proof {
                            assert forall|j: int| 0 <= j < al0.len() implies al0[j].0 != t by {
                                assert(am.contains_key(al0[j].0));
                            }
                        }
                        proof {
                            let am0 = am;
                            am = am.insert(t, target);
                            assert forall|u: u32| #[trigger] am.contains_key(u)
                                implies exists|j: int| 0 <= j < alias@.len() && alias@[j].0 == u by {
                                if u == t {
                                    assert(alias@[alias@.len() - 1].0 == t);
                                } else {
                                    assert(am0.contains_key(u));
                                    let j = choose|j: int| 0 <= j < al0.len() && al0[j].0 == u;
                                    assert(alias@[j] == al0[j]);
                                }
                            }
                        }
                    },
                    _ => {},
                }
            },
            None => {
                let ghost o = out@;
                out.push(m);
                proof {
                    assert(models_of(out@) =~= models_of(o).push(vmodel(m)));
                }
            },
        }
        proof {
            let st = number_upto(s, k + 1);
            assert(st == number_step(before, s[k as int]));
        }
        k = k + 1;
    }
    let f = match final_vreg {
        Some(r) => Some(rename_exec(&alias, r, Ghost(am))),
        None => None,
    };
    (out, f)
}

/// Whether an instruction's operation is commutative.
fn is_commutative(i: &VInstruction) -> (r: bool)
    ensures
        r == commutative(vkind(*i)),
{
    match i {
        VInstruction::Add { .. } | VInstruction::Add2 { .. } | VInstruction::Mul { .. } | VInstruction::Mul2 { .. } => true,
        _ => false,
    }
}

/// Law: numbering never adds an instruction: after `k` instructions at most
/// `k` are kept, and the kept ones write registers that the input wrote.
pub proof fn law_numbering_never_grows(s: Seq<VInstruction>, k: int)
    requires
        0 <= k <= s.len(),
    ensures
        number_upto(s, k).kept.len() <= k,
        forall|p: int| 0 <= p < number_upto(s, k).kept.len() ==>
            exists|j: int| 0 <= j < k && #[trigger] number_upto(s, k).kept[p].dest == vdest_of(s[j]),
    decreases k,
{
    if k > 0 {
        law_numbering_never_grows(s, k - 1);
        let st = number_upto(s, k - 1);
        let st2 = number_upto(s, k);
        assert forall|p: int| 0 <= p < st2.kept.len() implies
            exists|j: int| 0 <= j < k && #[trigger] st2.kept[p].dest == vdest_of(s[j]) by {
            if p < st.kept.len() {
                assert(st2.kept[p] == st.kept[p]);
                let j = choose|j: int| 0 <= j < k - 1 && #[trigger] st.kept[p].dest == vdest_of(s[j]);
                assert(st2.kept[p].dest == vdest_of(s[j]));
            } else {
                assert(st2.kept[p].dest == vdest_of(s[k - 1]));
            }
        }
    }
}

/// Whether an operation's operands may be read in any order: sums and
/// products, and nothing else.
pub open spec fn order_free(k: VKind) -> bool {
    match k {
        VKind::Add | VKind::Add2 | VKind::Mul | VKind::Mul2 => true,
        _ => false,
    }
}

/// Law: numbering merges an instruction only into a kept one with the same
/// operation that reads the same registers; the registers must come in the
/// same order unless the operation is a sum or a product, where each register
/// must be read equally often. So `a / b` is never merged into `b / a`, nor
/// `a - b` into `b - a`.
pub proof fn law_merged_instructions_read_alike(s: Seq<VInstruction>, k: int)
    requires
        0 <= k < s.len(),
    ensures
        ({
            let st = number_upto(s, k);
            let i = s[k];
            let m = VModel { kind: vkind(i), dest: vdest_of(i), reads: renamed(st.alias, vreads_of(i)) };
            let f = first_match(st.kept, m);
            f >= 0 ==> {
                &&& st.kept[f].kind == m.kind
                &&& !order_free(m.kind) ==> st.kept[f].reads == m.reads
                &&& order_free(m.kind) ==> forall|r: VReg| #[trigger] occurrences(st.kept[f].reads, r) == occurrences(m.reads, r)
            }
        }),
{
    let st = number_upto(s, k);
    let i = s[k];
    let m = VModel { kind: vkind(i), dest: vdest_of(i), reads: renamed(st.alias, vreads_of(i)) };
    lemma_first_match(st.kept, m);
}

} // verus!
