//! Tables from registers to registers: `FxHashMap<u32, u32>` behind trusted
//! wrappers, shared by the passes that keep one.

use vstd::prelude::*;
use std::collections::HashMap;
use rustc_hash::{FxBuildHasher, FxHashMap};

verus! {

/// What a table from registers to registers holds.
pub uninterp spec fn u32_table(m: HashMap<u32, u32, FxBuildHasher>) -> Map<u32, u32>;

/// The table that holds nothing.
pub open spec fn empty_table() -> Map<u32, u32> {
    Map::empty()
}

/// `FxHashMap::default`: an empty table.
#[verifier::external_body]
pub(crate) fn table_new() -> (r: FxHashMap<u32, u32>)
    ensures
        u32_table(r) == empty_table(),
{
    FxHashMap::default()
}

/// `HashMap::contains_key`.
#[verifier::external_body]
pub(crate) fn table_contains(m: &FxHashMap<u32, u32>, k: u32) -> (c: bool)
    ensures
        c == u32_table(*m).contains_key(k),
{
    m.contains_key(&k)
}

/// `HashMap::get`, the value copied out.
#[verifier::external_body]
pub(crate) fn table_get(m: &FxHashMap<u32, u32>, k: u32) -> (v: Option<u32>)
    ensures
        match v {
            Some(x) => u32_table(*m).contains_key(k) && u32_table(*m)[k] == x,
            None => !u32_table(*m).contains_key(k),
        },
{
    m.get(&k).copied()
}

/// `HashMap::insert`.
#[verifier::external_body]
pub(crate) fn table_insert(m: &mut FxHashMap<u32, u32>, k: u32, v: u32)
    ensures
        u32_table(*final(m)) == u32_table(*old(m)).insert(k, v),
{
    m.insert(k, v);
}

/// `HashMap::remove`, handing back the value that was there.
#[verifier::external_body]
pub(crate) fn table_remove(m: &mut FxHashMap<u32, u32>, k: u32) -> (v: Option<u32>)
    ensures
        u32_table(*final(m)) == u32_table(*old(m)).remove(k),
        match v {
            Some(x) => u32_table(*old(m)).contains_key(k) && u32_table(*old(m))[k] == x,
            None => !u32_table(*old(m)).contains_key(k),
        },
{
    m.remove(&k)
}

} // verus!
