//! Power chains: a power of a register computed from a power of the same
//! register computed earlier.
//!
//! The pass walks the instructions in order and remembers, for each base
//! register, which powers of it are held in which registers. A later power of
//! the same base is rewritten to multiply or square powers already at hand
//! (`x^3` as `x^2 * x`, `x^6` as the square of `x^3`). Writing a register
//! forgets the powers held in it and, when it is a base, every power of it.

use vstd::prelude::*;
use std::collections::HashMap;
use rustc_hash::{FxBuildHasher, FxHashMap};
use super::instruction::{Instruction, reads_of, writes_of};
use super::tables::{empty_table, table_contains, table_get, table_insert, table_new, table_remove, u32_table};

verus! {

// ---------------------------------------------------------------------------
// Exponents
// ---------------------------------------------------------------------------

/// Whether `x` fits in `i32`.
pub open spec fn in_i32(x: int) -> bool {
    i32::MIN <= x <= i32::MAX
}

/// `a * b`, clamped to the range of `i32`.
pub open spec fn sat_mul(a: i32, b: i32) -> i32 {
    let p = a * b;
    if p > i32::MAX {
        i32::MAX
    } else if p < i32::MIN {
        i32::MIN
    } else {
        p as i32
    }
}

/// `i32::saturating_mul`.
pub fn saturating_mul_i32(a: i32, b: i32) -> (r: i32)
    ensures
        r == sat_mul(a, b),
{
    let a64 = a as i64;
    let b64 = b as i64;
    assert(-0x4000_0000_0000_0000 <= a64 * b64 <= 0x4000_0000_0000_0000) by (nonlinear_arith)
        requires
            -0x8000_0000 <= a64 <= 0x7fff_ffff,
            -0x8000_0000 <= b64 <= 0x7fff_ffff,
    ;
    let p = a64 * b64;
    if p > i32::MAX as i64 {
        i32::MAX
    } else if p < i32::MIN as i64 {
        i32::MIN
    } else {
        p as i32
    }
}

/// The power of its source register that an instruction computes; 1 for
/// instructions that compute no power.
pub open spec fn multiplier_of(i: Instruction) -> i32 {
    match i {
        Instruction::Square { .. } => 2,
        Instruction::Cube { .. } => 3,
        Instruction::Pow4 { .. } => 4,
        Instruction::Powi { n, .. } => n,
        Instruction::Recip { .. } => -1i32,
        Instruction::InvSquare { .. } => -2i32,
        Instruction::InvCube { .. } => -3i32,
        _ => 1,
    }
}

/// The power of its source register that an instruction computes.
pub fn instruction_multiplier(instr: &Instruction) -> (r: i32)
    ensures
        r == multiplier_of(*instr),
{
    match *instr {
        Instruction::Square { .. } => 2,
        Instruction::Cube { .. } => 3,
        Instruction::Pow4 { .. } => 4,
        Instruction::Powi { n, .. } => n,
        Instruction::Recip { .. } => -1,
        Instruction::InvSquare { .. } => -2,
        Instruction::InvCube { .. } => -3,
        _ => 1,
    }
}

// ---------------------------------------------------------------------------
// Lists of available powers
// ---------------------------------------------------------------------------

/// The register of the first entry, from `j` on, with exponent `e`.
pub open spec fn find_exp_from(av: Seq<(i32, u32)>, e: int, j: int) -> Option<u32>
    decreases av.len() - j,
{
    if j < 0 || j >= av.len() {
        None
    } else if av[j].0 == e {
        Some(av[j].1)
    } else {
        find_exp_from(av, e, j + 1)
    }
}

/// The register of the first entry with exponent `e`.
pub open spec fn find_exp(av: Seq<(i32, u32)>, e: int) -> Option<u32> {
    find_exp_from(av, e, 0)
}

/// The exponent of the first entry, from `j` on, held in register `r`.
pub open spec fn find_reg_from(av: Seq<(i32, u32)>, r: u32, j: int) -> Option<i32>
    decreases av.len() - j,
{
    if j < 0 || j >= av.len() {
        None
    } else if av[j].1 == r {
        Some(av[j].0)
    } else {
        find_reg_from(av, r, j + 1)
    }
}

/// The exponent of the first entry held in register `r`.
pub open spec fn find_reg(av: Seq<(i32, u32)>, r: u32) -> Option<i32> {
    find_reg_from(av, r, 0)
}

/// The register of the first entry with exponent `e`.
fn find_exp_exec(av: &Vec<(i32, u32)>, e: i32) -> (r: Option<u32>)
    ensures
        r == find_exp(av@, e as int),
{
    let mut j: usize = 0;
    while j < av.len()
        invariant
            j <= av@.len(),
            find_exp(av@, e as int) == find_exp_from(av@, e as int, j as int),
        decreases av.len() - j,
    {
        if av[j].0 == e {
            return Some(av[j].1);
        }
        j = j + 1;
    }
    None
}

/// The exponent of the first entry held in register `r`.
fn find_reg_exec(av: &Vec<(i32, u32)>, r: u32) -> (e: Option<i32>)
    ensures
        e == find_reg(av@, r),
{
    let mut j: usize = 0;
    while j < av.len()
        invariant
            j <= av@.len(),
            find_reg(av@, r) == find_reg_from(av@, r, j as int),
        decreases av.len() - j,
    {
        if av[j].1 == r {
            return Some(av[j].0);
        }
        j = j + 1;
    }
    None
}

/// The search for `target` as the square of an entry, or the product of two
/// entries of positive exponents, from entry `j` on; first, whether its
/// arithmetic stays within `i32`.
pub open spec fn pos_search(av: Seq<(i32, u32)>, target: int, dest: u32, j: int) -> (bool, Option<Instruction>)
    decreases av.len() - j,
{
    if j < 0 || j >= av.len() {
        (true, None)
    } else {
        let ea = av[j].0 as int;
        let ra = av[j].1;
        if !in_i32(ea * 2) {
            (false, None)
        } else if ea * 2 == target {
            (true, Some(Instruction::Square { dest, src: ra }))
        } else if !in_i32(target - ea) {
            (false, None)
        } else if target - ea <= 0 || target - ea == ea {
            pos_search(av, target, dest, j + 1)
        } else {
            match find_exp(av, target - ea) {
                Some(rb) => (true, Some(Instruction::Mul { dest, a: ra, b: rb })),
                None => pos_search(av, target, dest, j + 1),
            }
        }
    }
}

/// The same search among entries of negative exponents, for a negative target.
pub open spec fn neg_search(av: Seq<(i32, u32)>, target: int, dest: u32, j: int) -> (bool, Option<Instruction>)
    decreases av.len() - j,
{
    if j < 0 || j >= av.len() {
        (true, None)
    } else {
        let ea = av[j].0 as int;
        let ra = av[j].1;
        if ea >= 0 {
            neg_search(av, target, dest, j + 1)
        } else if !in_i32(ea * 2) {
            (false, None)
        } else if ea * 2 == target {
            (true, Some(Instruction::Square { dest, src: ra }))
        } else if !in_i32(target - ea) {
            (false, None)
        } else if target - ea >= 0 || target - ea == ea {
            neg_search(av, target, dest, j + 1)
        } else {
            match find_exp(av, target - ea) {
                Some(rb) => (true, Some(Instruction::Mul { dest, a: ra, b: rb })),
                None => neg_search(av, target, dest, j + 1),
            }
        }
    }
}

/// A cheap way to compute `base^target` into `dest` from the powers `av` of
/// `base` at hand, if there is one; first, whether the search's arithmetic
/// stays within `i32`.
pub open spec fn cheap_combo(base: u32, target: i32, dest: u32, av: Seq<(i32, u32)>) -> (bool, Option<Instruction>) {
    if target == 3 {
        (true, match find_exp(av, 2) {
            Some(sq) => Some(Instruction::Mul { dest, a: sq, b: base }),
            None => None,
        })
    } else {
        let r4: Option<Instruction> = if target == 4 {
            match find_exp(av, 2) {
                Some(sq) => Some(Instruction::Square { dest, src: sq }),
                None => match find_exp(av, 3) {
                    Some(cu) => Some(Instruction::Mul { dest, a: cu, b: base }),
                    None => None,
                },
            }
        } else {
            None
        };
        let r5: Option<Instruction> = if target == 5 {
            match find_exp(av, 4) {
                Some(p4) => Some(Instruction::Mul { dest, a: p4, b: base }),
                None => match (find_exp(av, 3), find_exp(av, 2)) {
                    (Some(cu), Some(sq)) => Some(Instruction::Mul { dest, a: cu, b: sq }),
                    _ => None,
                },
            }
        } else {
            None
        };
        if r4 is Some {
            (true, r4)
        } else if r5 is Some {
            (true, r5)
        } else if target > 1 {
            pos_search(av, target as int, dest, 0)
        } else if target < -1 {
            neg_search(av, target as int, dest, 0)
        } else {
            (true, None)
        }
    }
}

/// A cheap way to compute `base^target_exp` into `dest` from the powers of
/// `base` in `available`, as `cheap_combo` says.
pub fn find_cheap_combo(base: u32, target_exp: i32, dest: u32, available: &Vec<(i32, u32)>) -> (r: Option<Instruction>)
    requires
        cheap_combo(base, target_exp, dest, available@).0,
    ensures
        r == cheap_combo(base, target_exp, dest, available@).1,
{
    let ghost av = available@;
    if target_exp == 3 {
        return match find_exp_exec(available, 2) {
            Some(sq) => Some(Instruction::Mul { dest, a: sq, b: base }),
            None => None,
        };
    }
    if target_exp == 4 {
        if let Some(sq) = find_exp_exec(available, 2) {
            return Some(Instruction::Square { dest, src: sq });
        }
        if let Some(cu) = find_exp_exec(available, 3) {
            return Some(Instruction::Mul { dest, a: cu, b: base });
        }
    }
    if target_exp == 5 {
        if let Some(p4) = find_exp_exec(available, 4) {
            return Some(Instruction::Mul { dest, a: p4, b: base });
        }
        let cu = find_exp_exec(available, 3);
        let sq = find_exp_exec(available, 2);
        if let (Some(cu), Some(sq)) = (cu, sq) {
            return Some(Instruction::Mul { dest, a: cu, b: sq });
        }
    }
    if target_exp > 1 {
        let mut j: usize = 0;
        while j < available.len()
            invariant
                j <= av.len(),
                av == available@,
                target_exp > 1,
                pos_search(av, target_exp as int, dest, 0) == pos_search(av, target_exp as int, dest, j as int),
                pos_search(av, target_exp as int, dest, 0).0,
                cheap_combo(base, target_exp, dest, av).1 == pos_search(av, target_exp as int, dest, 0).1,
            decreases available.len() - j,
        {
            let (ea, ra) = available[j];
            if ea * 2 == target_exp {
                return Some(Instruction::Square { dest, src: ra });
            }
            let eb = target_exp - ea;
            if !(eb <= 0 || eb == ea) {
                if let Some(rb) = find_exp_exec(available, eb) {
                    return Some(Instruction::Mul { dest, a: ra, b: rb });
                }
            }
            j = j + 1;
        }
        return None;
    }
    if target_exp < -1 {
        let mut j: usize = 0;
        while j < available.len()
            invariant
                j <= av.len(),
                av == available@,
                target_exp < -1,
                neg_search(av, target_exp as int, dest, 0) == neg_search(av, target_exp as int, dest, j as int),
                neg_search(av, target_exp as int, dest, 0).0,
                cheap_combo(base, target_exp, dest, av).1 == neg_search(av, target_exp as int, dest, 0).1,
            decreases available.len() - j,
        {
            let (ea, ra) = available[j];
            if ea < 0 {
                if ea * 2 == target_exp {
                    return Some(Instruction::Square { dest, src: ra });
                }
                let eb = target_exp - ea;
                if !(eb >= 0 || eb == ea) {
                    if let Some(rb) = find_exp_exec(available, eb) {
                        return Some(Instruction::Mul { dest, a: ra, b: rb });
                    }
                }
            }
            j = j + 1;
        }
        return None;
    }
    None
}

// ---------------------------------------------------------------------------
// The tables: `FxHashMap`s behind trusted wrappers
// ---------------------------------------------------------------------------

/// What the table of available powers holds: base register to the list of
/// (exponent, register) of its powers at hand.
pub uninterp spec fn avail(m: HashMap<u32, Vec<(i32, u32)>, FxBuildHasher>) -> Map<u32, Seq<(i32, u32)>>;

/// No powers at hand.
pub open spec fn no_powers() -> Map<u32, Seq<(i32, u32)>> {
    Map::empty()
}

/// `FxHashMap::default`: an empty table of powers.
#[verifier::external_body]
fn avail_new() -> (r: FxHashMap<u32, Vec<(i32, u32)>>)
    ensures
        avail(r) == no_powers(),
{
    FxHashMap::default()
}

/// `HashMap::contains_key` on the table of powers.
#[verifier::external_body]
fn avail_contains(m: &FxHashMap<u32, Vec<(i32, u32)>>, b: u32) -> (r: bool)
    ensures
        r == avail(*m).contains_key(b),
{
    m.contains_key(&b)
}

/// `HashMap::get`, the list copied out: the powers of `b` at hand.
#[verifier::external_body]
fn avail_get(m: &FxHashMap<u32, Vec<(i32, u32)>>, b: u32) -> (r: Option<Vec<(i32, u32)>>)
    ensures
        match r {
            Some(l) => avail(*m).contains_key(b) && l@ == avail(*m)[b],
            None => !avail(*m).contains_key(b),
        },
{
    m.get(&b).cloned()
}

/// `HashMap::insert`: the powers of `b` at hand become `l`.
#[verifier::external_body]
fn avail_insert(m: &mut FxHashMap<u32, Vec<(i32, u32)>>, b: u32, l: Vec<(i32, u32)>)
    ensures
        avail(*final(m)) == avail(*old(m)).insert(b, l@),
{
    m.insert(b, l);
}

/// `HashMap::remove`: forget the powers of `b`, handing back the list.
#[verifier::external_body]
fn avail_remove(m: &mut FxHashMap<u32, Vec<(i32, u32)>>, b: u32) -> (r: Option<Vec<(i32, u32)>>)
    ensures
        avail(*final(m)) == avail(*old(m)).remove(b),
        match r {
            Some(l) => avail(*old(m)).contains_key(b) && l@ == avail(*old(m))[b],
            None => !avail(*old(m)).contains_key(b),
        },
{
    m.remove(&b)
}

// ---------------------------------------------------------------------------
// The pass, as a state machine over the instructions
// ---------------------------------------------------------------------------

/// The powers at hand, by base, and the base of each register holding one.
pub struct PState {
    pub av: Map<u32, Seq<(i32, u32)>>,
    pub d2b: Map<u32, u32>,
}

/// The state that two tables stand for.
pub open spec fn pstate_of(av: HashMap<u32, Vec<(i32, u32)>, FxBuildHasher>, d2b: HashMap<u32, u32, FxBuildHasher>) -> PState {
    PState { av: avail(av), d2b: u32_table(d2b) }
}

/// `d2b` without the registers of the entries of `l` from `j` on.
pub open spec fn remove_regs(d2b: Map<u32, u32>, l: Seq<(i32, u32)>, j: int) -> Map<u32, u32>
    decreases l.len() - j,
{
    if j < 0 || j >= l.len() {
        d2b
    } else {
        remove_regs(d2b.remove(l[j].1), l, j + 1)
    }
}

/// The first `k` entries of `l`, without those held in register `w`.
pub open spec fn keep_others(l: Seq<(i32, u32)>, w: u32, k: int) -> Seq<(i32, u32)>
    decreases k,
{
    if k <= 0 {
        Seq::empty()
    } else if l[k - 1].1 != w {
        keep_others(l, w, k - 1).push(l[k - 1])
    } else {
        keep_others(l, w, k - 1)
    }
}

/// The state once register `w` is written: every power of `w` is forgotten,
/// and so is the power that `w` held.
pub open spec fn kill(st: PState, w: u32) -> PState {
    if !st.d2b.contains_key(w) && !st.av.contains_key(w) {
        st
    } else {
        let st1 = if st.av.contains_key(w) {
            PState { av: st.av.remove(w), d2b: remove_regs(st.d2b, st.av[w], 0) }
        } else {
            st
        };
        if st1.d2b.contains_key(w) {
            let base = st1.d2b[w];
            let d2b2 = st1.d2b.remove(w);
            if st1.av.contains_key(base) {
                let cached = keep_others(st1.av[base], w, st1.av[base].len() as int);
                PState {
                    av: if cached.len() == 0 { st1.av.remove(base) } else { st1.av.insert(base, cached) },
                    d2b: d2b2,
                }
            } else {
                PState { av: st1.av, d2b: d2b2 }
            }
        } else {
            st1
        }
    }
}

/// The state once each register of `ws` from `j` on is written, in order.
pub open spec fn kill_all(st: PState, ws: Seq<u32>, j: int) -> PState
    decreases ws.len() - j,
{
    if j < 0 || j >= ws.len() {
        st
    } else {
        kill_all(kill(st, ws[j]), ws, j + 1)
    }
}

/// Forgets the powers that writing register `written_reg` makes stale.
fn kill_written_reg(
    available_by_base: &mut FxHashMap<u32, Vec<(i32, u32)>>,
    dest_to_base: &mut FxHashMap<u32, u32>,
    written_reg: u32,
)
    ensures
        pstate_of(*final(available_by_base), *final(dest_to_base))
            == kill(pstate_of(*old(available_by_base), *old(dest_to_base)), written_reg),
{
    let ghost st = pstate_of(*available_by_base, *dest_to_base);
    if !table_contains(dest_to_base, written_reg) && !avail_contains(available_by_base, written_reg) {
        return;
    }
    let ghost st1 = if st.av.contains_key(written_reg) {
        PState { av: st.av.remove(written_reg), d2b: remove_regs(st.d2b, st.av[written_reg], 0) }
    } else {
        st
    };
    if let Some(removed) = avail_remove(available_by_base, written_reg) {
        let ghost d0 = u32_table(*dest_to_base);
        let mut j: usize = 0;
        while j < removed.len()
            invariant
                j <= removed@.len(),
                remove_regs(d0, removed@, 0) == remove_regs(u32_table(*dest_to_base), removed@, j as int),
            decreases removed.len() - j,
        {
            table_remove(dest_to_base, removed[j].1);
            j = j + 1;
        }
        assert(remove_regs(u32_table(*dest_to_base), removed@, j as int) == u32_table(*dest_to_base));
        assert(d0 == st.d2b);
        assert(removed@ == st.av[written_reg]);
        assert(u32_table(*dest_to_base) == st1.d2b);
        assert(avail(*available_by_base) == st1.av);
    } else {
        assert(avail(*available_by_base) =~= st1.av);
    }
    assert(pstate_of(*available_by_base, *dest_to_base) == st1);
    if let Some(base) = table_remove(dest_to_base, written_reg) {
        if let Some(cached) = avail_get(available_by_base, base) {
            let mut kept: Vec<(i32, u32)> = Vec::new();
            let mut j: usize = 0;
            while j < cached.len()
                invariant
                    j <= cached@.len(),
                    kept@ == keep_others(cached@, written_reg, j as int),
                decreases cached.len() - j,
            {
                if cached[j].1 != written_reg {
                    kept.push(cached[j]);
                }
                j = j + 1;
            }
            if kept.len() == 0 {
                avail_remove(available_by_base, base);
            } else {
                avail_insert(available_by_base, base, kept);
            }
        } else {
            assert(avail(*available_by_base) == st1.av);
        }
    } else {
        assert(u32_table(*dest_to_base) =~= st1.d2b);
    }
}

/// Whether `i` computes a power of its source register.
pub open spec fn is_power_op(i: Instruction) -> bool {
    ||| i is Square
    ||| i is Cube
    ||| i is Pow4
    ||| i is Powi
    ||| i is Recip
    ||| i is InvSquare
    ||| i is InvCube
}

/// The source and destination of a power instruction.
pub open spec fn power_regs(i: Instruction) -> (u32, u32) {
    match i {
        Instruction::Square { dest, src } => (src, dest),
        Instruction::Cube { dest, src } => (src, dest),
        Instruction::Pow4 { dest, src } => (src, dest),
        Instruction::Powi { dest, src, .. } => (src, dest),
        Instruction::Recip { dest, src } => (src, dest),
        Instruction::InvSquare { dest, src } => (src, dest),
        Instruction::InvCube { dest, src } => (src, dest),
        _ => (0, 0),
    }
}

/// The base that register `r` holds a power of, and the exponent; `r`
/// itself to the first power when it holds no known power.
pub open spec fn base_exp(r: u32, st: PState) -> (u32, i32) {
    if st.d2b.contains_key(r) {
        let b = st.d2b[r];
        (b, if st.av.contains_key(b) {
            match find_reg(st.av[b], r) {
                Some(e) => e,
                None => 1i32,
            }
        } else {
            1i32
        })
    } else {
        (r, 1i32)
    }
}

/// The power that `i` computes, as (base, exponent, destination), if it is a
/// power instruction or a product of two powers of one base; first, whether
/// the exponent of such a product fits in `i32`.
pub open spec fn power_info(i: Instruction, st: PState) -> (bool, Option<(u32, i32, u32)>) {
    if is_power_op(i) {
        let (src, dest) = power_regs(i);
        let (b, e) = base_exp(src, st);
        (true, Some((b, sat_mul(e, multiplier_of(i)), dest)))
    } else {
        match i {
            Instruction::Mul { dest, a, b } => {
                let (ba, ea) = base_exp(a, st);
                let (bb, eb) = base_exp(b, st);
                if ba == bb {
                    (in_i32(ea + eb), Some((ba, (ea + eb) as i32, dest)))
                } else {
                    (true, None)
                }
            },
            _ => (true, None),
        }
    }
}

/// The base and exponent of register `r`, as `base_exp` says.
fn base_exp_exec(r: u32, available_by_base: &FxHashMap<u32, Vec<(i32, u32)>>, dest_to_base: &FxHashMap<u32, u32>) -> (res: (u32, i32))
    ensures
        res == base_exp(r, pstate_of(*available_by_base, *dest_to_base)),
{
    match table_get(dest_to_base, r) {
        Some(b) => {
            let e = match avail_get(available_by_base, b) {
                Some(v) => match find_reg_exec(&v, r) {
                    Some(e) => e,
                    None => 1,
                },
                None => 1,
            };
            (b, e)
        },
        None => (r, 1),
    }
}

/// The power that `instr` computes, as `power_info` says.
fn get_power_info(
    instr: &Instruction,
    available_by_base: &FxHashMap<u32, Vec<(i32, u32)>>,
    dest_to_base: &FxHashMap<u32, u32>,
) -> (r: Option<(u32, i32, u32)>)
    requires
        power_info(*instr, pstate_of(*available_by_base, *dest_to_base)).0,
    ensures
        r == power_info(*instr, pstate_of(*available_by_base, *dest_to_base)).1,
{
    match *instr {
        Instruction::Square { src, dest }
        | Instruction::Cube { src, dest }
        | Instruction::Pow4 { src, dest }
        | Instruction::Powi { src, dest, .. }
        | Instruction::Recip { src, dest }
        | Instruction::InvSquare { src, dest }
        | Instruction::InvCube { src, dest } => {
            let (b, e) = base_exp_exec(src, available_by_base, dest_to_base);
            Some((b, saturating_mul_i32(e, instruction_multiplier(instr)), dest))
        },
        Instruction::Mul { a, b, dest } => {
            let (base_a, exp_a) = base_exp_exec(a, available_by_base, dest_to_base);
            let (base_b, exp_b) = base_exp_exec(b, available_by_base, dest_to_base);
            if base_a == base_b {
                Some((base_a, exp_a + exp_b, dest))
            } else {
                None
            }
        },
        _ => None,
    }
}

/// What instruction `i` becomes, the state after it, and whether its
/// arithmetic stays within `i32`: a power with a cheap combination of powers
/// at hand is rewritten; the powers it makes stale are forgotten; and the
/// power it computes is recorded, unless it overwrites its own base.
pub open spec fn chain_step(st: PState, i: Instruction) -> (Instruction, PState, bool) {
    let (f1, info) = power_info(i, st);
    match info {
        Some((base, exp, dest)) => {
            let (f2, repl) = if st.av.contains_key(base) {
                cheap_combo(base, exp, dest, st.av[base])
            } else {
                (true, None)
            };
            let i2 = match repl {
                Some(r) => r,
                None => i,
            };
            let st1 = kill(st, dest);
            let st2 = if dest != base {
                PState {
                    av: st1.av.insert(base, (if st1.av.contains_key(base) { st1.av[base] } else { Seq::empty() }).push((exp, dest))),
                    d2b: st1.d2b.insert(dest, base),
                }
            } else {
                st1
            };
            (i2, st2, f1 && f2)
        },
        None => (i, kill_all(st, writes_of(i), 0), f1),
    }
}

/// The state after the first `k` instructions of `s`.
pub open spec fn chain_state(s: Seq<Instruction>, k: int) -> PState
    decreases k,
{
    if k <= 0 {
        PState { av: no_powers(), d2b: empty_table() }
    } else {
        chain_step(chain_state(s, k - 1), s[k - 1]).1
    }
}

/// Whether the pass's exponent arithmetic stays within `i32` throughout `s`.
pub open spec fn chain_fits(s: Seq<Instruction>) -> bool {
    forall|k: int| 0 <= k < s.len() ==> #[trigger] chain_step(chain_state(s, k), s[k]).2
}

/// What the pass makes of `s`.
pub open spec fn power_chains_of(s: Seq<Instruction>) -> Seq<Instruction> {
    Seq::new(s.len(), |k: int| chain_step(chain_state(s, k), s[k]).0)
}

/// Moves the tables past instruction `instr`, whose power is `info`, as
/// `chain_step` says.
fn chain_advance(
    instr: &Instruction,
    info: Option<(u32, i32, u32)>,
    available_by_base: &mut FxHashMap<u32, Vec<(i32, u32)>>,
    dest_to_base: &mut FxHashMap<u32, u32>,
)
    requires
        info == power_info(*instr, pstate_of(*old(available_by_base), *old(dest_to_base))).1,
    ensures
        pstate_of(*final(available_by_base), *final(dest_to_base))
            == chain_step(pstate_of(*old(available_by_base), *old(dest_to_base)), *instr).1,
{
    let ghost st = pstate_of(*available_by_base, *dest_to_base);
    match info {
        Some((base, exp, dest)) => {
            kill_written_reg(available_by_base, dest_to_base, dest);
            if dest != base {
                let mut l = match avail_get(available_by_base, base) {
                    Some(l) => l,
                    None => Vec::new(),
                };
                l.push((exp, dest));
                avail_insert(available_by_base, base, l);
                table_insert(dest_to_base, dest, base);
            }
        },
        None => {
            let ws = instr.writes();
            let mut j: usize = 0;
            while j < ws.len()
                invariant
                    j <= ws@.len(),
                    ws@ == writes_of(*instr),
                    kill_all(st, ws@, 0) == kill_all(pstate_of(*available_by_base, *dest_to_base), ws@, j as int),
                decreases ws.len() - j,
            {
                kill_written_reg(available_by_base, dest_to_base, ws[j]);
                j = j + 1;
            }
        },
    }
}

/// Whether `power_info` of `instr` stays within `i32`.
fn power_info_fits(
    instr: &Instruction,
    available_by_base: &FxHashMap<u32, Vec<(i32, u32)>>,
    dest_to_base: &FxHashMap<u32, u32>,
) -> (r: bool)
    ensures
        r == power_info(*instr, pstate_of(*available_by_base, *dest_to_base)).0,
{
    match *instr {
        Instruction::Mul { a, b, .. } => {
            let (base_a, exp_a) = base_exp_exec(a, available_by_base, dest_to_base);
            let (base_b, exp_b) = base_exp_exec(b, available_by_base, dest_to_base);
            if base_a == base_b {
                let sum: i64 = exp_a as i64 + exp_b as i64;
                i32::MIN as i64 <= sum && sum <= i32::MAX as i64
            } else {
                true
            }
        },
        _ => true,
    }
}

/// Whether the search of `cheap_combo` stays within `i32`.
fn cheap_combo_fits(base: u32, target_exp: i32, dest: u32, available: &Vec<(i32, u32)>) -> (r: bool)
    ensures
        r == cheap_combo(base, target_exp, dest, available@).0,
{
    let ghost av = available@;
    if target_exp == 3 {
        return true;
    }
    let four = target_exp == 4 && (find_exp_exec(available, 2).is_some() || find_exp_exec(available, 3).is_some());
    let five = target_exp == 5 && (find_exp_exec(available, 4).is_some()
        || (find_exp_exec(available, 3).is_some() && find_exp_exec(available, 2).is_some()));
    if four || five {
        return true;
    }
    let t: i64 = target_exp as i64;
    let ghost ti = target_exp as int;
    if target_exp > 1 || target_exp < -1 {
        let pos = target_exp > 1;
        proof {
            assert(cheap_combo(base, target_exp, dest, av).0
                == (if pos { pos_search(av, ti, dest, 0).0 } else { neg_search(av, ti, dest, 0).0 }));
        }
        let mut j: usize = 0;
        while j < available.len()
            invariant
                j <= av.len(),
                av == available@,
                t == ti,
                ti == target_exp as int,
                pos == (target_exp > 1),
                target_exp > 1 || target_exp < -1,
                cheap_combo(base, target_exp, dest, av).0
                    == (if pos { pos_search(av, ti, dest, j as int).0 } else { neg_search(av, ti, dest, j as int).0 }),
            decreases available.len() - j,
        {
            let (ea, ra) = available[j];
            let e: i64 = ea as i64;
            let ghost cur = if pos { pos_search(av, ti, dest, j as int) } else { neg_search(av, ti, dest, j as int) };
            let ghost nxt = if pos { pos_search(av, ti, dest, j + 1) } else { neg_search(av, ti, dest, j + 1) };
            if pos || ea < 0 {
                if !(i32::MIN as i64 <= e * 2 && e * 2 <= i32::MAX as i64) {
                    assert(!cur.0);
                    return false;
                }
                if e * 2 == t {
                    assert(cur.0);
                    return true;
                }
                let eb: i64 = t - e;
                if !(i32::MIN as i64 <= eb && eb <= i32::MAX as i64) {
                    assert(!cur.0);
                    return false;
                }
                let skip = if pos { eb <= 0 || eb == e } else { eb >= 0 || eb == e };
                if !skip {
                    if find_exp_exec(available, eb as i32).is_some() {
                        assert(cur.0);
                        return true;
                    }
                }
                assert(cur == nxt);
            } else {
                assert(cur == nxt);
            }
            j = j + 1;
        }
        return true;
    }
    true
}

/// Whether the exponent arithmetic of the pass stays within `i32` on
/// `instructions`, as `chain_fits` says.
pub fn power_chains_fit(instructions: &Vec<Instruction>) -> (r: bool)
    ensures
        r == chain_fits(instructions@),
{
    let ghost s = instructions@;
    let mut available_by_base = avail_new();
    let mut dest_to_base = table_new();
    let n = instructions.len();
    let mut idx: usize = 0;
    while idx < n
        invariant
            idx <= n,
            n == s.len(),
            s == instructions@,
            forall|k: int| 0 <= k < idx ==> #[trigger] chain_step(chain_state(s, k), s[k]).2,
            pstate_of(available_by_base, dest_to_base) == chain_state(s, idx as int),
        decreases n - idx,
    {
        let instr = instructions[idx];
        let ghost st = chain_state(s, idx as int);
        if !power_info_fits(&instr, &available_by_base, &dest_to_base) {
            proof {
                assert(!chain_step(chain_state(s, idx as int), s[idx as int]).2);
            }
            return false;
        }
        let info = get_power_info(&instr, &available_by_base, &dest_to_base);
        if let Some((base, exp, dest)) = info {
            if let Some(available) = avail_get(&available_by_base, base) {
                if !cheap_combo_fits(base, exp, dest, &available) {
                    proof {
                        assert(!chain_step(chain_state(s, idx as int), s[idx as int]).2);
                    }
                    return false;
                }
            }
        }
        proof {
            assert(chain_step(st, s[idx as int]).2);
        }
        chain_advance(&instr, info, &mut available_by_base, &mut dest_to_base);
        idx = idx + 1;
    }
    true
}

/// Rewrites powers to reuse powers of the same base computed earlier.
pub fn optimize_power_chains(instructions: &mut Vec<Instruction>)
    requires
        chain_fits(old(instructions)@),
    ensures
        final(instructions)@ == power_chains_of(old(instructions)@),
{
    let ghost s = instructions@;
    let mut available_by_base = avail_new();
    let mut dest_to_base = table_new();
    let n = instructions.len();
    let mut idx: usize = 0;
    while idx < n
        invariant
            idx <= n,
            n == s.len(),
            instructions@.len() == n,
            chain_fits(s),
            forall|k: int| 0 <= k < idx ==> #[trigger] instructions@[k] == power_chains_of(s)[k],
            forall|k: int| idx <= k < n ==> #[trigger] instructions@[k] == s[k],
            pstate_of(available_by_base, dest_to_base) == chain_state(s, idx as int),
        decreases n - idx,
    {
        let instr = instructions[idx];
        let ghost st = chain_state(s, idx as int);
        assert(chain_step(chain_state(s, idx as int), s[idx as int]).2);
        let info = get_power_info(&instr, &available_by_base, &dest_to_base);
        if let Some((base, exp, dest)) = info {
            let repl = match avail_get(&available_by_base, base) {
                Some(available) => find_cheap_combo(base, exp, dest, &available),
                None => None,
            };
            if let Some(r) = repl {
                instructions.set(idx, r);
            }
        }
        chain_advance(&instr, info, &mut available_by_base, &mut dest_to_base);
        assert(instructions@[idx as int] == power_chains_of(s)[idx as int]);
        idx = idx + 1;
    }
    assert(instructions@ =~= power_chains_of(s));
}

proof fn lemma_pos_search_dest(av: Seq<(i32, u32)>, target: int, dest: u32, j: int)
    ensures
        pos_search(av, target, dest, j).1 matches Some(r) ==> writes_of(r) == seq![dest],
    decreases av.len() - j,
{
    if 0 <= j < av.len() {
        lemma_pos_search_dest(av, target, dest, j + 1);
    }
}

proof fn lemma_neg_search_dest(av: Seq<(i32, u32)>, target: int, dest: u32, j: int)
    ensures
        neg_search(av, target, dest, j).1 matches Some(r) ==> writes_of(r) == seq![dest],
    decreases av.len() - j,
{
    if 0 <= j < av.len() {
        lemma_neg_search_dest(av, target, dest, j + 1);
    }
}

/// Law: the pass rewrites instructions in place and keeps what each writes.
pub proof fn law_power_chains_keep_destinations(s: Seq<Instruction>, k: int)
    requires
        0 <= k < s.len(),
    ensures
        power_chains_of(s).len() == s.len(),
        writes_of(power_chains_of(s)[k]) == writes_of(s[k]),
{
    let st = chain_state(s, k);
    let i = s[k];
    let (f1, info) = power_info(i, st);
    if let Some((base, exp, dest)) = info {
        if st.av.contains_key(base) {
            let av = st.av[base];
            lemma_pos_search_dest(av, exp as int, dest, 0);
            lemma_neg_search_dest(av, exp as int, dest, 0);
            if is_power_op(i) {
                assert(writes_of(i) == seq![dest]);
            } else {
                assert(i is Mul);
                assert(writes_of(i) == seq![dest]);
            }
        }
    }
}

// ---------------------------------------------------------------------------
// Why the table of powers can be trusted
// ---------------------------------------------------------------------------

/// Whether the state has `r` at hand as the power `e` of base `b`.
pub open spec fn has_entry(st: PState, b: u32, e: i32, r: u32) -> bool {
    st.av.contains_key(b) && st.av[b].contains((e, r))
}

/// Every register at hand as a power of `b` is recorded as holding a power of `b`.
pub open spec fn bases_agree(st: PState) -> bool {
    forall|b: u32, p: (i32, u32)| #[trigger] st.av.contains_key(b) && #[trigger] st.av[b].contains(p) ==>
        st.d2b.contains_key(p.1) && st.d2b[p.1] == b
}

proof fn lemma_remove_regs(d2b: Map<u32, u32>, l: Seq<(i32, u32)>, j: int)
    requires
        0 <= j <= l.len(),
    ensures
        forall|x: u32| #[trigger] remove_regs(d2b, l, j).contains_key(x) ==>
            d2b.contains_key(x) && remove_regs(d2b, l, j)[x] == d2b[x],
        forall|x: u32| d2b.contains_key(x) && !remove_regs(d2b, l, j).contains_key(x) ==>
            exists|idx: int| j <= idx < l.len() && #[trigger] l[idx].1 == x,
        forall|idx: int| j <= idx < l.len() ==> !remove_regs(d2b, l, j).contains_key(#[trigger] l[idx].1),
    decreases l.len() - j,
{
    if j < l.len() {
        lemma_remove_regs(d2b.remove(l[j].1), l, j + 1);
        let res = remove_regs(d2b, l, j);
        assert(res == remove_regs(d2b.remove(l[j].1), l, j + 1));
        assert forall|x: u32| d2b.contains_key(x) && !res.contains_key(x) implies
            exists|idx: int| j <= idx < l.len() && #[trigger] l[idx].1 == x by {
            if x == l[j].1 {
                assert(l[j].1 == x);
            } else {
                assert(d2b.remove(l[j].1).contains_key(x));
                let idx = choose|idx: int| j + 1 <= idx < l.len() && #[trigger] l[idx].1 == x;
                assert(l[idx].1 == x);
            }
        }
    }
}

proof fn lemma_keep_others(l: Seq<(i32, u32)>, w: u32, k: int)
    requires
        0 <= k <= l.len(),
    ensures
        forall|p: (i32, u32)| #[trigger] keep_others(l, w, k).contains(p) ==> l.contains(p) && p.1 != w,
        forall|idx: int| 0 <= idx < k && l[idx].1 != w ==> keep_others(l, w, k).contains(#[trigger] l[idx]),
    decreases k,
{
    if k > 0 {
        lemma_keep_others(l, w, k - 1);
        let prev = keep_others(l, w, k - 1);
        let cur = keep_others(l, w, k);
        if l[k - 1].1 != w {
            assert(cur == prev.push(l[k - 1]));
            assert forall|p: (i32, u32)| #[trigger] cur.contains(p) implies l.contains(p) && p.1 != w by {
                let i = choose|i: int| 0 <= i < cur.len() && cur[i] == p;
                if i < prev.len() {
                    assert(prev[i] == p);
                    assert(prev.contains(p));
                } else {
                    assert(l[k - 1] == p);
                }
            }
            assert forall|idx: int| 0 <= idx < k && l[idx].1 != w implies cur.contains(#[trigger] l[idx]) by {
                if idx < k - 1 {
                    assert(prev.contains(l[idx]));
                    let i = choose|i: int| 0 <= i < prev.len() && prev[i] == l[idx];
                    assert(cur[i] == l[idx]);
                } else {
                    assert(cur[prev.len() as int] == l[idx]);
                }
            }
        }
    }
}

/// Writing a register keeps the bases in agreement, and leaves only powers
/// that were at hand before and involve neither the written register as
/// result nor as base.
pub proof fn lemma_kill(st: PState, w: u32)
    requires
        bases_agree(st),
    ensures
        bases_agree(kill(st, w)),
        forall|b: u32, e: i32, r: u32| #[trigger] has_entry(kill(st, w), b, e, r) ==>
            has_entry(st, b, e, r) && r != w && b != w,
{
    let k = kill(st, w);
    if !st.d2b.contains_key(w) && !st.av.contains_key(w) {
        assert forall|b: u32, e: i32, r: u32| #[trigger] has_entry(k, b, e, r) implies
            has_entry(st, b, e, r) && r != w && b != w by {
            assert(st.d2b.contains_key(r) && st.d2b[r] == b);
        }
        return;
    }
    let st1 = if st.av.contains_key(w) {
        PState { av: st.av.remove(w), d2b: remove_regs(st.d2b, st.av[w], 0) }
    } else {
        st
    };
    if st.av.contains_key(w) {
        lemma_remove_regs(st.d2b, st.av[w], 0);
    }
    // Agreement after forgetting the powers of `w`.
    assert(bases_agree(st1)) by {
        assert forall|b: u32, p: (i32, u32)| #[trigger] st1.av.contains_key(b) && #[trigger] st1.av[b].contains(p) implies
            st1.d2b.contains_key(p.1) && st1.d2b[p.1] == b by {
            assert(st.av.contains_key(b) && st.av[b].contains(p));
            if st.av.contains_key(w) {
                assert(b != w);
                if !st1.d2b.contains_key(p.1) {
                    let idx = choose|idx: int| 0 <= idx < st.av[w].len() && #[trigger] st.av[w][idx].1 == p.1;
                    assert(st.av[w].contains(st.av[w][idx]));
                }
            }
        }
    }
    assert forall|b: u32, e: i32, r: u32| #[trigger] has_entry(st1, b, e, r) implies has_entry(st, b, e, r) && b != w by {}
    if st1.d2b.contains_key(w) {
        let base = st1.d2b[w];
        let d2b2 = st1.d2b.remove(w);
        if st1.av.contains_key(base) {
            let l = st1.av[base];
            let cached = keep_others(l, w, l.len() as int);
            lemma_keep_others(l, w, l.len() as int);
            assert forall|b: u32, p: (i32, u32)| #[trigger] k.av.contains_key(b) && #[trigger] k.av[b].contains(p) implies
                k.d2b.contains_key(p.1) && k.d2b[p.1] == b by {
                if b == base {
                    assert(cached.contains(p));
                    assert(l.contains(p));
                } else {
                    assert(st1.av[b].contains(p));
                    if p.1 == w {
                        assert(st1.d2b[w] == b);
                    }
                }
            }
            assert forall|b: u32, e: i32, r: u32| #[trigger] has_entry(k, b, e, r) implies
                has_entry(st, b, e, r) && r != w && b != w by {
                if b == base {
                    assert(cached.contains((e, r)));
                    assert(has_entry(st1, b, e, r));
                } else {
                    assert(has_entry(st1, b, e, r));
                    assert(st1.d2b.contains_key(r) && st1.d2b[r] == b);
                }
            }
        } else {
            assert forall|b: u32, p: (i32, u32)| #[trigger] k.av.contains_key(b) && #[trigger] k.av[b].contains(p) implies
                k.d2b.contains_key(p.1) && k.d2b[p.1] == b by {
                assert(st1.d2b.contains_key(p.1) && st1.d2b[p.1] == b);
                if p.1 == w {
                    assert(st1.av.contains_key(base));
                }
            }
            assert forall|b: u32, e: i32, r: u32| #[trigger] has_entry(k, b, e, r) implies
                has_entry(st, b, e, r) && r != w && b != w by {
                assert(has_entry(st1, b, e, r));
                assert(st1.d2b.contains_key(r) && st1.d2b[r] == b);
                if r == w {
                    assert(st1.av.contains_key(base));
                }
            }
        }
    } else {
        assert forall|b: u32, e: i32, r: u32| #[trigger] has_entry(k, b, e, r) implies
            has_entry(st, b, e, r) && r != w && b != w by {
            assert(has_entry(st1, b, e, r));
            assert(st1.d2b.contains_key(r));
        }
    }
}

/// Writing several registers in turn, as `lemma_kill` says of one.
pub proof fn lemma_kill_all(st: PState, ws: Seq<u32>, j: int)
    requires
        bases_agree(st),
        0 <= j <= ws.len(),
    ensures
        bases_agree(kill_all(st, ws, j)),
        forall|b: u32, e: i32, r: u32| #[trigger] has_entry(kill_all(st, ws, j), b, e, r) ==>
            has_entry(st, b, e, r) && forall|m: int| j <= m < ws.len() ==> ws[m] != r && ws[m] != b,
    decreases ws.len() - j,
{
    if j < ws.len() {
        lemma_kill(st, ws[j]);
        lemma_kill_all(kill(st, ws[j]), ws, j + 1);
    }
}

/// Whether the power `e` of `b` in register `r`, at hand after `k`
/// instructions, was computed there by an earlier instruction, after which
/// neither `r` nor `b` was written.
pub open spec fn entry_witnessed(s: Seq<Instruction>, k: int, b: u32, e: i32, r: u32) -> bool {
    exists|j: int| 0 <= j < k && #[trigger] power_info(s[j], chain_state(s, j)).1 == Some((b, e, r))
        && writes_of(s[j]) == seq![r]
        && forall|m: int| j < m < k ==> !writes_of(s[m]).contains(r) && !writes_of(s[m]).contains(b)
}

proof fn lemma_chain_sound(s: Seq<Instruction>, k: int)
    requires
        0 <= k <= s.len(),
    ensures
        bases_agree(chain_state(s, k)),
        forall|b: u32, e: i32, r: u32| #[trigger] has_entry(chain_state(s, k), b, e, r) ==> entry_witnessed(s, k, b, e, r),
    decreases k,
{
    if k == 0 {
        return;
    }
    lemma_chain_sound(s, k - 1);
    let st = chain_state(s, k - 1);
    let i = s[k - 1];
    let (f1, info) = power_info(i, st);
    let st2 = chain_state(s, k);
    match info {
        Some((base, exp, dest)) => {
            assert(writes_of(i) == seq![dest]) by {
                if !is_power_op(i) {
                    assert(i is Mul);
                }
            }
            lemma_kill(st, dest);
            let st1 = kill(st, dest);
            assert(bases_agree(st2)) by {
                if dest != base {
                    let l = if st1.av.contains_key(base) { st1.av[base] } else { Seq::empty() };
                    assert forall|b: u32, p: (i32, u32)| #[trigger] st2.av.contains_key(b) && #[trigger] st2.av[b].contains(p) implies
                        st2.d2b.contains_key(p.1) && st2.d2b[p.1] == b by {
                        if b == base {
                            let q = choose|q: int| 0 <= q < st2.av[b].len() && st2.av[b][q] == p;
                            if q < l.len() {
                                assert(l[q] == p);
                                assert(st1.av[b].contains(p));
                                assert(has_entry(st1, b, p.0, p.1));
                            }
                        } else {
                            assert(has_entry(st1, b, p.0, p.1));
                        }
                    }
                }
            }
            assert forall|b: u32, e: i32, r: u32| #[trigger] has_entry(st2, b, e, r) implies entry_witnessed(s, k, b, e, r) by {
                let fresh = dest != base && b == base && r == dest && e == exp;
                if fresh {
                    assert(power_info(s[k - 1], chain_state(s, k - 1)).1 == Some((b, e, r)));
                } else {
                    let old_entry = if dest != base && b == base {
                        let l = if st1.av.contains_key(base) { st1.av[base] } else { Seq::<(i32, u32)>::empty() };
                        let q = choose|q: int| 0 <= q < st2.av[b].len() && st2.av[b][q] == (e, r);
                        if q < l.len() {
                            assert(l[q] == (e, r));
                            assert(st1.av[b].contains((e, r)));
                            true
                        } else {
                            false
                        }
                    } else {
                        true
                    };
                    if old_entry {
                        assert(has_entry(st1, b, e, r));
                        assert(has_entry(st, b, e, r));
                        let j = choose|j: int| 0 <= j < k - 1 && #[trigger] power_info(s[j], chain_state(s, j)).1 == Some((b, e, r))
                            && writes_of(s[j]) == seq![r]
                            && forall|m: int| j < m < k - 1 ==> !writes_of(s[m]).contains(r) && !writes_of(s[m]).contains(b);
                        assert forall|m: int| j < m < k implies !writes_of(s[m]).contains(r) && !writes_of(s[m]).contains(b) by {
                            if m == k - 1 {
                                assert(writes_of(s[m]) == seq![dest]);
                            }
                        }
                    } else {
                        assert(st2.av[b].last() == (exp, dest));
                        assert((e, r) == (exp, dest));
                    }
                }
            }
        },
        None => {
            lemma_kill_all(st, writes_of(i), 0);
            assert forall|b: u32, e: i32, r: u32| #[trigger] has_entry(st2, b, e, r) implies entry_witnessed(s, k, b, e, r) by {
                assert(has_entry(st, b, e, r));
                let j = choose|j: int| 0 <= j < k - 1 && #[trigger] power_info(s[j], chain_state(s, j)).1 == Some((b, e, r))
                    && writes_of(s[j]) == seq![r]
                    && forall|m: int| j < m < k - 1 ==> !writes_of(s[m]).contains(r) && !writes_of(s[m]).contains(b);
                assert forall|m: int| j < m < k implies !writes_of(s[m]).contains(r) && !writes_of(s[m]).contains(b) by {
                    if m == k - 1 {
                        let ws = writes_of(i);
                        if ws.contains(r) {
                            let q = choose|q: int| 0 <= q < ws.len() && ws[q] == r;
                        }
                        if ws.contains(b) {
                            let q = choose|q: int| 0 <= q < ws.len() && ws[q] == b;
                        }
                    }
                }
            }
        },
    }
}

/// Law: every power the pass has at hand is still where it was computed.
///
/// After any number of instructions, a register at hand as the power `e` of
/// base `b` was written by an earlier instruction that computed exactly that
/// power of that base, and no instruction since has written that register or
/// the base.
pub proof fn law_power_table_sound(s: Seq<Instruction>, k: int, b: u32, e: i32, r: u32)
    requires
        0 <= k <= s.len(),
        has_entry(chain_state(s, k), b, e, r),
    ensures
        entry_witnessed(s, k, b, e, r),
{
    lemma_chain_sound(s, k);
}

/// Whether `x` is `base` or a register of `av`.
pub open spec fn from_table(x: u32, base: u32, av: Seq<(i32, u32)>) -> bool {
    x == base || exists|q: int| 0 <= q < av.len() && #[trigger] av[q].1 == x
}

/// Whether every register `i` reads is `base` or a register of `av`.
pub open spec fn reads_from_table(i: Instruction, base: u32, av: Seq<(i32, u32)>) -> bool {
    forall|q: int| 0 <= q < reads_of(i).len() ==> from_table(#[trigger] reads_of(i)[q], base, av)
}

proof fn lemma_find_exp_in(av: Seq<(i32, u32)>, e: int, j: int)
    ensures
        find_exp_from(av, e, j) matches Some(r) ==> exists|q: int| 0 <= q < av.len() && #[trigger] av[q].1 == r,
    decreases av.len() - j,
{
    if 0 <= j < av.len() {
        lemma_find_exp_in(av, e, j + 1);
    }
}

proof fn lemma_pos_search_reads(av: Seq<(i32, u32)>, base: u32, target: int, dest: u32, j: int)
    ensures
        pos_search(av, target, dest, j).1 matches Some(r) ==> reads_from_table(r, base, av),
    decreases av.len() - j,
{
    if 0 <= j < av.len() {
        lemma_pos_search_reads(av, base, target, dest, j + 1);
        lemma_find_exp_in(av, target - av[j].0, 0);
        assert(av[j].1 == av[j].1);
    }
}

proof fn lemma_neg_search_reads(av: Seq<(i32, u32)>, base: u32, target: int, dest: u32, j: int)
    ensures
        neg_search(av, target, dest, j).1 matches Some(r) ==> reads_from_table(r, base, av),
    decreases av.len() - j,
{
    if 0 <= j < av.len() {
        lemma_neg_search_reads(av, base, target, dest, j + 1);
        lemma_find_exp_in(av, target - av[j].0, 0);
        assert(av[j].1 == av[j].1);
    }
}

/// Law: a rewritten power reads only its base and powers of its base at hand.
///
/// With `law_power_table_sound`, each register it reads still holds the power
/// recorded for it.
pub proof fn law_rewrites_read_table(s: Seq<Instruction>, k: int)
    requires
        0 <= k < s.len(),
        power_chains_of(s)[k] != s[k],
    ensures
        ({
            let st = chain_state(s, k);
            let base = power_info(s[k], st).1.unwrap().0;
            &&& power_info(s[k], st).1 is Some
            &&& st.av.contains_key(base)
            &&& reads_from_table(power_chains_of(s)[k], base, st.av[base])
        }),
{
    let st = chain_state(s, k);
    let (f1, info) = power_info(s[k], st);
    if let Some((base, exp, dest)) = info {
        if st.av.contains_key(base) {
            let av = st.av[base];
            lemma_pos_search_reads(av, base, exp as int, dest, 0);
            lemma_neg_search_reads(av, base, exp as int, dest, 0);
            lemma_find_exp_in(av, 2, 0);
            lemma_find_exp_in(av, 3, 0);
            lemma_find_exp_in(av, 4, 0);
        }
    }
}

/// Whether register `x` holds `base^e`, going by the table `av` of powers of
/// `base` at hand (and `base` itself, the first power).
pub open spec fn holds_power(x: u32, e: int, base: u32, av: Seq<(i32, u32)>) -> bool {
    (x == base && e == 1) || exists|q: int| 0 <= q < av.len() && #[trigger] av[q].1 == x && av[q].0 == e
}

/// Whether instruction `r` computes `base^target` from registers holding
/// powers of `base`: a square of `base^(target/2)`, or a product of two
/// powers whose exponents add up to `target`.
pub open spec fn computes_power(r: Instruction, base: u32, av: Seq<(i32, u32)>, target: int) -> bool {
    match r {
        Instruction::Square { src, .. } => exists|e: int| #[trigger] holds_power(src, e, base, av) && 2 * e == target,
        Instruction::Mul { a, b, .. } => exists|ea: int|
            #[trigger] holds_power(a, ea, base, av) && holds_power(b, target - ea, base, av),
        _ => false,
    }
}

proof fn lemma_find_exp_holds(av: Seq<(i32, u32)>, base: u32, e: int, j: int)
    ensures
        find_exp_from(av, e, j) matches Some(x) ==> holds_power(x, e, base, av),
    decreases av.len() - j,
{
    if 0 <= j < av.len() {
        lemma_find_exp_holds(av, base, e, j + 1);
        if av[j].0 == e {
            assert(av[j].1 == av[j].1);
        }
    }
}

proof fn lemma_entry_holds(av: Seq<(i32, u32)>, base: u32, j: int)
    requires
        0 <= j < av.len(),
    ensures
        holds_power(av[j].1, av[j].0 as int, base, av),
{
    assert(av[j].1 == av[j].1);
}

proof fn lemma_search_step(av: Seq<(i32, u32)>, base: u32, target: int, dest: u32, j: int)
    requires
        0 <= j < av.len(),
    ensures
        2 * av[j].0 == target ==> computes_power(Instruction::Square { dest, src: av[j].1 }, base, av, target),
        find_exp(av, target - av[j].0) matches Some(rb) ==>
            computes_power(Instruction::Mul { dest, a: av[j].1, b: rb }, base, av, target),
{
    lemma_entry_holds(av, base, j);
    let ea = av[j].0 as int;
    let ra = av[j].1;
    lemma_find_exp_holds(av, base, target - ea, 0);
    assert(holds_power(ra, ea, base, av));
    if 2 * ea == target {
        assert(exists|e: int| #[trigger] holds_power(ra, e, base, av) && 2 * e == target);
        let i = Instruction::Square { dest, src: ra };
        assert(i matches Instruction::Square { src, .. } && src == ra);
        assert(computes_power(i, base, av, target));
    }
    if let Some(rb) = find_exp(av, target - ea) {
        assert(holds_power(rb, target - ea, base, av));
        assert(exists|e: int| #[trigger] holds_power(ra, e, base, av) && holds_power(rb, target - e, base, av));
        let i = Instruction::Mul { dest, a: ra, b: rb };
        assert(i matches Instruction::Mul { a, b, .. } && a == ra && b == rb);
        assert(computes_power(i, base, av, target));
    }
}

proof fn lemma_pos_search_computes(av: Seq<(i32, u32)>, base: u32, target: int, dest: u32, j: int)
    ensures
        pos_search(av, target, dest, j).1 matches Some(r) ==> computes_power(r, base, av, target),
    decreases av.len() - j,
{
    if 0 <= j < av.len() {
        lemma_pos_search_computes(av, base, target, dest, j + 1);
        lemma_search_step(av, base, target, dest, j);
    }
}

proof fn lemma_neg_search_computes(av: Seq<(i32, u32)>, base: u32, target: int, dest: u32, j: int)
    ensures
        neg_search(av, target, dest, j).1 matches Some(r) ==> computes_power(r, base, av, target),
    decreases av.len() - j,
{
    if 0 <= j < av.len() {
        lemma_neg_search_computes(av, base, target, dest, j + 1);
        lemma_search_step(av, base, target, dest, j);
    }
}

/// Law: every cheap combination the pass picks computes the power it
/// replaces, `base^target`, from registers that the table says hold powers of
/// `base` (or from `base` itself), and writes the same destination.
///
/// With `law_power_table_sound`, those registers do hold those powers when
/// the rewritten instruction runs.
pub proof fn law_cheap_combo_computes_the_power(base: u32, target: i32, dest: u32, av: Seq<(i32, u32)>)
    ensures
        cheap_combo(base, target, dest, av).1 matches Some(r) ==>
            computes_power(r, base, av, target as int) && writes_of(r) == seq![dest],
{
    lemma_find_exp_holds(av, base, 2, 0);
    lemma_find_exp_holds(av, base, 3, 0);
    lemma_find_exp_holds(av, base, 4, 0);
    lemma_pos_search_computes(av, base, target as int, dest, 0);
    lemma_neg_search_computes(av, base, target as int, dest, 0);
    lemma_pos_search_dest(av, target as int, dest, 0);
    lemma_neg_search_dest(av, target as int, dest, 0);
    assert(holds_power(base, 1, base, av));
    let t = target as int;
    if let Some(sq) = find_exp(av, 2) {
        assert(holds_power(sq, 2, base, av));
        assert(t == 3 ==> exists|e: int| #[trigger] holds_power(sq, e, base, av) && holds_power(base, t - e, base, av));
        assert(t == 4 ==> exists|e: int| #[trigger] holds_power(sq, e, base, av) && 2 * e == t);
        let i3 = Instruction::Mul { dest, a: sq, b: base };
        assert(i3 matches Instruction::Mul { a, b, .. } && a == sq && b == base);
        assert(computes_power(i3, base, av, 3));
        let i4 = Instruction::Square { dest, src: sq };
        assert(i4 matches Instruction::Square { src, .. } && src == sq);
        assert(computes_power(i4, base, av, 4));
    }
    if let Some(cu) = find_exp(av, 3) {
        assert(holds_power(cu, 3, base, av));
        assert(exists|e: int| #[trigger] holds_power(cu, e, base, av) && holds_power(base, 4 - e, base, av));
        let j4 = Instruction::Mul { dest, a: cu, b: base };
        assert(j4 matches Instruction::Mul { a, b, .. } && a == cu && b == base);
        assert(computes_power(j4, base, av, 4));
        if let Some(sq) = find_exp(av, 2) {
            assert(holds_power(sq, 2, base, av));
            assert(exists|e: int| #[trigger] holds_power(cu, e, base, av) && holds_power(sq, 5 - e, base, av));
            let j5 = Instruction::Mul { dest, a: cu, b: sq };
            assert(j5 matches Instruction::Mul { a, b, .. } && a == cu && b == sq);
            assert(computes_power(j5, base, av, 5));
        }
    }
    if let Some(p4) = find_exp(av, 4) {
        assert(holds_power(p4, 4, base, av));
        assert(exists|e: int| #[trigger] holds_power(p4, e, base, av) && holds_power(base, 5 - e, base, av));
        let i5 = Instruction::Mul { dest, a: p4, b: base };
        assert(i5 matches Instruction::Mul { a, b, .. } && a == p4 && b == base);
        assert(computes_power(i5, base, av, 5));
    }
}

} // verus!
