//! Symbol interning.
//!
//! A registry gives every name one symbol with a unique id: interning a name
//! that is already known gives back the same symbol. Ids are drawn from a
//! counter and never reused while the counter does not wrap. A second table
//! finds a symbol from its id.

use vstd::prelude::*;
use std::collections::HashMap;
use rustc_hash::{FxBuildHasher, FxHashMap};
use std::cmp::Ordering;
use crate::text::chars_of;

verus! {

// ---------------------------------------------------------------------------
// Symbols
// ---------------------------------------------------------------------------

/// A symbol: a unique id and, unless it is anonymous, a name.
#[derive(Debug, Clone)]
pub struct InternedSymbol {
    id: u64,
    name: Option<String>,
}

/// The model of a symbol: its id and its name.
pub type SymbolModel = (u64, Option<Seq<char>>);

/// The model of an optional name.
pub open spec fn name_model(n: Option<String>) -> Option<Seq<char>> {
    match n {
        Some(s) => Some(s@),
        None => None,
    }
}

impl View for InternedSymbol {
    type V = SymbolModel;

    closed spec fn view(&self) -> SymbolModel {
        (self.id, name_model(self.name))
    }
}

/// The model of an optional symbol.
pub open spec fn sym_model(s: Option<InternedSymbol>) -> Option<SymbolModel> {
    match s {
        Some(x) => Some(x@),
        None => None,
    }
}

impl InternedSymbol {
    /// The named symbol `name` with the given id.
    pub fn new_named(name: &str, id: u64) -> (r: InternedSymbol)
        ensures
            r@ == (id, Some(name@)),
    {
        InternedSymbol { id, name: Some(String::from_str(name)) }
    }

    /// An anonymous symbol with the given id.
    pub fn new_anon(id: u64) -> (r: InternedSymbol)
        ensures
            r@ == (id, None::<Seq<char>>),
    {
        InternedSymbol { id, name: None }
    }

    /// An anonymous symbol with a specific id.
    pub fn new_anon_with_id(id: u64) -> (r: InternedSymbol)
        ensures
            r@ == (id, None::<Seq<char>>),
    {
        InternedSymbol { id, name: None }
    }

    /// A named symbol whose id is drawn from `counter`, which then moves on by
    /// one (wrapping at the end of its range).
    pub fn new_named_for_context(name: &str, counter: &mut u64) -> (r: InternedSymbol)
        ensures
            r@ == (*old(counter), Some(name@)),
            *final(counter) == (if *old(counter) == u64::MAX { 0 } else { (*old(counter) + 1) as u64 }),
    {
        let id = *counter;
        *counter = if id == u64::MAX { 0 } else { id + 1 };
        InternedSymbol { id, name: Some(String::from_str(name)) }
    }

    /// The symbol's unique id.
    pub fn id(&self) -> (r: u64)
        ensures
            r == self@.0,
    {
        self.id
    }

    /// The symbol's name, `None` for an anonymous symbol.
    pub fn name(&self) -> (r: Option<&str>)
        ensures
            match r {
                Some(s) => self@.1 == Some(s@),
                None => self@.1 is None,
            },
    {
        match &self.name {
            Some(s) => Some(s.as_str()),
            None => None,
        }
    }

    /// An owned copy of the symbol's name, `None` for an anonymous symbol.
    pub fn name_arc(&self) -> (r: Option<String>)
        ensures
            name_model(r) == self@.1,
    {
        match &self.name {
            Some(s) => Some(s.clone()),
            None => None,
        }
    }

    /// The symbol's name, empty for an anonymous symbol.
    pub fn as_str(&self) -> (r: &str)
        ensures
            r@ == (match self@.1 {
                Some(s) => s,
                None => Seq::<char>::empty(),
            }),
    {
        match &self.name {
            Some(s) => s.as_str(),
            None => {
                proof { reveal_strlit(""); }
                ""
            },
        }
    }

    /// A copy of the symbol.
    pub fn copy(&self) -> (r: InternedSymbol)
        ensures
            r@ == self@,
    {
        InternedSymbol { id: self.id, name: self.name_arc() }
    }
}

/// A handle to a registered symbol: its id.
#[derive(Clone, Copy, Debug, PartialEq, Eq, Hash, PartialOrd, Ord, Structural)]
pub struct Symbol(pub u64);

impl Symbol {
    /// The symbol's unique id.
    pub fn id(&self) -> (r: u64)
        ensures
            r == self.0,
    {
        self.0
    }

    /// The symbol with the given id.
    pub fn from_id(id: u64) -> (r: Symbol)
        ensures
            r.0 == id,
    {
        Symbol(id)
    }
}

/// Errors of the registry operations.
#[derive(Debug, Clone, PartialEq, Eq)]
pub enum SymbolError {
    /// A symbol of that name is already registered.
    DuplicateName(String),
    /// No symbol of that name is registered.
    NotFound(String),
}

// ---------------------------------------------------------------------------
// The name table: an `FxHashMap` behind trusted wrappers
// ---------------------------------------------------------------------------

#[verifier::external_type_specification]
#[verifier::external_body]
pub struct ExFxBuildHasher(FxBuildHasher);

/// The symbols a name table holds, by name.
pub uninterp spec fn name_table(m: HashMap<String, InternedSymbol, FxBuildHasher>) -> Map<Seq<char>, SymbolModel>;

/// The table with no names.
pub open spec fn no_names() -> Map<Seq<char>, SymbolModel> {
    Map::empty()
}

/// `FxHashMap::default`: an empty table.
#[verifier::external_body]
fn table_new() -> (r: FxHashMap<String, InternedSymbol>)
    ensures
        name_table(r) == no_names(),
{
    FxHashMap::default()
}

/// `HashMap::get`: the symbol stored under the name, if any.
#[verifier::external_body]
fn table_get<'a>(m: &'a FxHashMap<String, InternedSymbol>, name: &str) -> (r: Option<&'a InternedSymbol>)
    ensures
        match r {
            Some(s) => name_table(*m).contains_key(name@) && name_table(*m)[name@] == s@,
            None => !name_table(*m).contains_key(name@),
        },
{
    m.get(name)
}

/// `HashMap::contains_key`: whether a symbol is stored under the name.
#[verifier::external_body]
fn table_contains(m: &FxHashMap<String, InternedSymbol>, name: &str) -> (r: bool)
    ensures
        r == name_table(*m).contains_key(name@),
{
    m.contains_key(name)
}

/// `HashMap::insert`: store the symbol under the name, replacing any symbol stored there.
#[verifier::external_body]
fn table_insert(m: &mut FxHashMap<String, InternedSymbol>, name: String, sym: InternedSymbol)
    ensures
        name_table(*final(m)) == name_table(*old(m)).insert(name@, sym@),
{
    m.insert(name, sym);
}

/// `HashMap::remove`: take out the symbol stored under the name, if any.
#[verifier::external_body]
fn table_remove(m: &mut FxHashMap<String, InternedSymbol>, name: &str) -> (r: Option<InternedSymbol>)
    ensures
        name_table(*final(m)) == name_table(*old(m)).remove(name@),
        match r {
            Some(s) => name_table(*old(m)).contains_key(name@) && name_table(*old(m))[name@] == s@,
            None => !name_table(*old(m)).contains_key(name@),
        },
{
    m.remove(name)
}

/// `HashMap::len`: the number of stored symbols.
#[verifier::external_body]
fn table_len(m: &FxHashMap<String, InternedSymbol>) -> (r: usize)
    ensures
        r == name_table(*m).dom().len(),
{
    m.len()
}

/// `HashMap::keys`, each name copied out: every stored name once, in the
/// table's own order (which this contract leaves open).
#[verifier::external_body]
fn table_names(m: &FxHashMap<String, InternedSymbol>) -> (r: Vec<String>)
    ensures
        r@.len() == name_table(*m).dom().len(),
        forall|i: int| 0 <= i < r@.len() ==> name_table(*m).contains_key(#[trigger] r@[i]@),
        forall|x: Seq<char>| #[trigger] name_table(*m).contains_key(x) ==> exists|i: int| 0 <= i < r@.len() && r@[i]@ == x,
        forall|i: int, j: int| 0 <= i < j < r@.len() ==> #[trigger] r@[i]@ != #[trigger] r@[j]@,
{
    m.keys().cloned().collect()
}

// ---------------------------------------------------------------------------
// The registry
// ---------------------------------------------------------------------------

/// The symbol registry: names to symbols, ids to symbols, and the next id.
pub struct SymbolRegistry {
    names: FxHashMap<String, InternedSymbol>,
    ids: Vec<Option<InternedSymbol>>,
    next_id: u64,
}

/// The model of a registry.
pub struct RegistryModel {
    pub names: Map<Seq<char>, SymbolModel>,
    pub ids: Seq<Option<SymbolModel>>,
    pub next_id: u64,
}

/// The models of the entries of an id table.
pub open spec fn id_models(s: Seq<Option<InternedSymbol>>) -> Seq<Option<SymbolModel>> {
    Seq::new(s.len(), |i: int| sym_model(s[i]))
}

impl View for SymbolRegistry {
    type V = RegistryModel;

    closed spec fn view(&self) -> RegistryModel {
        RegistryModel { names: name_table(self.names), ids: id_models(self.ids@), next_id: self.next_id }
    }
}

/// The id table after `register(id, sym)`: grown with empty entries to
/// `id + 32` when `id` is past its end, then `sym` stored at `id`.
pub open spec fn registered(ids: Seq<Option<SymbolModel>>, id: u64, sym: SymbolModel) -> Seq<Option<SymbolModel>> {
    let grown = if ids.len() <= id {
        ids + Seq::new((id + 32 - ids.len()) as nat, |i: int| None::<SymbolModel>)
    } else {
        ids
    };
    grown.update(id as int, Some(sym))
}

/// The counter after drawing one id.
pub open spec fn next_of(c: u64) -> u64 {
    if c == u64::MAX { 0 } else { (c + 1) as u64 }
}

/// The registry after interning `name` when it is not yet known.
pub open spec fn with_new(m: RegistryModel, name: Seq<char>) -> RegistryModel {
    let sym = (m.next_id, Some(name));
    RegistryModel {
        names: m.names.insert(name, sym),
        ids: registered(m.ids, m.next_id, sym),
        next_id: next_of(m.next_id),
    }
}

/// Interning `name`: the known symbol, or a new one registered under the next id.
pub open spec fn interned(m: RegistryModel, name: Seq<char>) -> (RegistryModel, SymbolModel) {
    if m.names.contains_key(name) {
        (m, m.names[name])
    } else {
        (with_new(m, name), (m.next_id, Some(name)))
    }
}

/// The registry after removing `name`.
pub open spec fn removed(m: RegistryModel, name: Seq<char>) -> RegistryModel {
    if m.names.contains_key(name) {
        let id = m.names[name].0;
        RegistryModel {
            names: m.names.remove(name),
            ids: if id < m.ids.len() { m.ids.update(id as int, None) } else { m.ids },
            next_id: m.next_id,
        }
    } else {
        m
    }
}

/// Whether registering the next id stays within the machine's index range.
pub open spec fn room_for_next(m: RegistryModel) -> bool {
    m.next_id as int + 32 <= usize::MAX
}

/// Whether finitely many names are registered, every registered name holds a
/// symbol of that name with an id below the counter, and different names hold
/// different ids.
pub open spec fn well_named(m: RegistryModel) -> bool {
    &&& m.names.dom().finite()
    &&& forall|n: Seq<char>| #[trigger] m.names.contains_key(n) ==> m.names[n].1 == Some(n) && m.names[n].0 < m.next_id
    &&& forall|a: Seq<char>, b: Seq<char>| #[trigger] m.names.contains_key(a) && #[trigger] m.names.contains_key(b)
        && a != b ==> m.names[a].0 != m.names[b].0
}

impl SymbolRegistry {
    /// Every registry is well named.
    #[verifier::type_invariant]
    spec fn names_hold_their_symbols(self) -> bool {
        well_named(self@)
    }

    /// An empty registry whose first id is 1.
    pub fn new() -> (r: SymbolRegistry)
        ensures
            r@.names == Map::<Seq<char>, SymbolModel>::empty(),
            r@.ids == Seq::<Option<SymbolModel>>::empty(),
            r@.next_id == 1,
            well_named(r@),
    {
        let r = SymbolRegistry { names: table_new(), ids: Vec::new(), next_id: 1 };
        assert(id_models(r.ids@) =~= Seq::<Option<SymbolModel>>::empty());
        r
    }

    /// Whether the next id can be registered within the machine's index range.
    pub fn has_room(&self) -> (r: bool)
        ensures
            r == room_for_next(self@),
    {
        self.next_id <= (usize::MAX - 32) as u64
    }

    /// Draw the next id.
    fn fresh_id(&mut self) -> (r: u64)
        requires
            old(self)@.next_id < u64::MAX,
        ensures
            r == old(self)@.next_id,
            final(self)@.next_id == next_of(old(self)@.next_id),
            final(self)@.names == old(self)@.names,
            final(self)@.ids == old(self)@.ids,
    {
        proof { use_type_invariant(&*self); }
        let id = self.next_id;
        self.next_id = id + 1;
        id
    }
}

/// The symbol registered under `id`, if any.
pub fn lookup_by_id(reg: &SymbolRegistry, id: u64) -> (r: Option<InternedSymbol>)
    ensures
        sym_model(r) == (if id < reg@.ids.len() { reg@.ids[id as int] } else { None }),
{
    if id < reg.ids.len() as u64 {
        match &reg.ids[id as usize] {
            Some(s) => Some(s.copy()),
            None => None,
        }
    } else {
        None
    }
}

/// Register `interned` under `id`, growing the id table as needed.
pub fn register_in_id_registry(reg: &mut SymbolRegistry, id: u64, interned: InternedSymbol)
    requires
        id as int + 32 <= usize::MAX,
    ensures
        final(reg)@.ids == registered(old(reg)@.ids, id, interned@),
        final(reg)@.names == old(reg)@.names,
        final(reg)@.next_id == old(reg)@.next_id,
        well_named(final(reg)@),
{
    proof { use_type_invariant(&*reg); }
    let ghost old_ids = reg@.ids;
    let mut ids: Vec<Option<InternedSymbol>> = Vec::new();
    std::mem::swap(&mut ids, &mut reg.ids);
    assert(id_models(ids@) == old_ids);
    let idx = id as usize;
    if ids.len() <= idx {
        let new_len = idx + 32;
        while ids.len() < new_len
            invariant
                old_ids.len() <= ids@.len() <= new_len,
                new_len == id + 32,
                old_ids.len() <= id,
                forall|i: int| 0 <= i < old_ids.len() ==> #[trigger] sym_model(ids@[i]) == old_ids[i],
                forall|i: int| old_ids.len() <= i < ids@.len() ==> #[trigger] ids@[i] is None,
            decreases new_len - ids.len(),
        {
            ids.push(None);
        }
        assert(id_models(ids@) =~= old_ids + Seq::new((id + 32 - old_ids.len()) as nat, |i: int| None::<SymbolModel>));
    }
    assert(ids@.len() <= id ==> false);
    let ghost grown = id_models(ids@);
    assert(grown == (if old_ids.len() <= id {
        old_ids + Seq::new((id + 32 - old_ids.len()) as nat, |i: int| None::<SymbolModel>)
    } else {
        old_ids
    }));
    ids.set(idx, Some(interned));
    assert(id_models(ids@) =~= registered(old_ids, id, interned@));
    reg.ids = ids;
}

/// Register a new symbol `name`; an error when the name is already registered.
pub fn symb_new(reg: &mut SymbolRegistry, name: &str) -> (r: Result<Symbol, SymbolError>)
    requires
        old(reg)@.names.contains_key(name@) || room_for_next(old(reg)@),
    ensures
        well_named(final(reg)@),
        match r {
            Ok(s) => !old(reg)@.names.contains_key(name@) && s.0 == old(reg)@.next_id
                && final(reg)@ == with_new(old(reg)@, name@),
            Err(e) => old(reg)@.names.contains_key(name@) && final(reg)@ == old(reg)@
                && (e matches SymbolError::DuplicateName(n) && n@ == name@),
        },
{
    proof { use_type_invariant(&*reg); }
    if table_contains(&reg.names, name) {
        return Err(SymbolError::DuplicateName(String::from_str(name)));
    }
    let sym = insert_new(reg, name);
    Ok(Symbol(sym.id()))
}

/// Register `name`, not yet known, under the next id.
fn insert_new(reg: &mut SymbolRegistry, name: &str) -> (r: InternedSymbol)
    requires
        room_for_next(old(reg)@),
        !old(reg)@.names.contains_key(name@),
    ensures
        r@ == (old(reg)@.next_id, Some(name@)),
        final(reg)@ == with_new(old(reg)@, name@),
        well_named(final(reg)@),
{
    proof { use_type_invariant(&*reg); }
    let id = reg.fresh_id();
    let interned = InternedSymbol::new_named(name, id);
    register_in_id_registry(reg, id, interned.copy());
    let ghost before = reg@;
    let mut names = table_new();
    std::mem::swap(&mut names, &mut reg.names);
    table_insert(&mut names, String::from_str(name), interned.copy());
    proof {
        let t = name_table(names);
        assert(t == before.names.insert(name@, (id, Some(name@))));
        assert forall|a: Seq<char>, b: Seq<char>| #[trigger] t.contains_key(a) && #[trigger] t.contains_key(b)
            && a != b implies t[a].0 != t[b].0 by {
            if a != name@ {
                assert(before.names.contains_key(a));
            }
            if b != name@ {
                assert(before.names.contains_key(b));
            }
        }
    }
    reg.names = names;
    interned
}

/// The symbol registered under `name`; an error when there is none.
pub fn symb_get(reg: &SymbolRegistry, name: &str) -> (r: Result<Symbol, SymbolError>)
    ensures
        match r {
            Ok(s) => reg@.names.contains_key(name@) && s.0 == reg@.names[name@].0,
            Err(e) => !reg@.names.contains_key(name@) && (e matches SymbolError::NotFound(n) && n@ == name@),
        },
{
    match table_get(&reg.names, name) {
        Some(s) => Ok(Symbol(s.id())),
        None => Err(SymbolError::NotFound(String::from_str(name))),
    }
}

/// Whether a symbol is registered under `name`.
pub fn symbol_exists(reg: &SymbolRegistry, name: &str) -> (r: bool)
    ensures
        r == reg@.names.contains_key(name@),
{
    table_contains(&reg.names, name)
}

/// The symbol of `name`, registered if it is new.
pub fn symb(reg: &mut SymbolRegistry, name: &str) -> (r: Symbol)
    requires
        old(reg)@.names.contains_key(name@) || room_for_next(old(reg)@),
    ensures
        well_named(final(reg)@),
        r.0 < final(reg)@.next_id,
        (final(reg)@, r.0) == (interned(old(reg)@, name@).0, interned(old(reg)@, name@).1.0),
{
    let s = symb_interned(reg, name);
    Symbol(s.id())
}

/// The interned symbol of `name`: the registered one, or a new one under the next id.
pub fn symb_interned(reg: &mut SymbolRegistry, name: &str) -> (r: InternedSymbol)
    requires
        old(reg)@.names.contains_key(name@) || room_for_next(old(reg)@),
    ensures
        (final(reg)@, r@) == interned(old(reg)@, name@),
        well_named(final(reg)@),
        r@.1 == Some(name@),
        r@.0 < final(reg)@.next_id,
        final(reg)@.names.contains_key(name@),
        final(reg)@.names.dom().len()
            == old(reg)@.names.dom().len() + (if old(reg)@.names.contains_key(name@) { 0int } else { 1int }),
{
    proof {
        use_type_invariant(&*reg);
        law_intern_counts_new_names(reg@, name@);
    }
    match table_get(&reg.names, name) {
        Some(s) => {
            return s.copy();
        },
        None => {},
    }
    insert_new(reg, name)
}

/// Remove the symbol of `name`; whether there was one.
pub fn remove_symbol(reg: &mut SymbolRegistry, name: &str) -> (r: bool)
    ensures
        well_named(final(reg)@),
        r == old(reg)@.names.contains_key(name@),
        final(reg)@ == removed(old(reg)@, name@),
        final(reg)@.names.dom().len() == old(reg)@.names.dom().len() - (if r { 1int } else { 0int }),
{
    proof {
        use_type_invariant(&*reg);
        if reg@.names.contains_key(name@) {
            assert(removed(reg@, name@).names.dom() =~= reg@.names.dom().remove(name@));
        }
    }
    let ghost old_ids = reg@.ids;
    let ghost old_names = reg@.names;
    let mut names = table_new();
    std::mem::swap(&mut names, &mut reg.names);
    let taken = table_remove(&mut names, name);
    proof {
        let t = name_table(names);
        assert(t == old_names.remove(name@));
        assert forall|a: Seq<char>, b: Seq<char>| #[trigger] t.contains_key(a) && #[trigger] t.contains_key(b)
            && a != b implies t[a].0 != t[b].0 by {
            assert(old_names.contains_key(a) && old_names.contains_key(b));
        }
    }
    reg.names = names;
    match taken {
        Some(sym) => {
            let idx = sym.id();
            if idx < reg.ids.len() as u64 {
                let mut ids: Vec<Option<InternedSymbol>> = Vec::new();
                std::mem::swap(&mut ids, &mut reg.ids);
                ids.set(idx as usize, None);
                assert(id_models(ids@) =~= old_ids.update(idx as int, None));
                reg.ids = ids;
            }
            true
        },
        None => {
            assert(old(reg)@.names.remove(name@) =~= old(reg)@.names);
            false
        },
    }
}

/// Remove every symbol; the id counter carries on.
pub fn clear_symbols(reg: &mut SymbolRegistry)
    ensures
        well_named(final(reg)@),
        final(reg)@.names == Map::<Seq<char>, SymbolModel>::empty(),
        final(reg)@.ids == Seq::<Option<SymbolModel>>::empty(),
        final(reg)@.next_id == old(reg)@.next_id,
{
    reg.names = table_new();
    reg.ids = Vec::new();
    assert(id_models(reg.ids@) =~= Seq::<Option<SymbolModel>>::empty());
}

/// The number of registered names.
pub fn symbol_count(reg: &SymbolRegistry) -> (r: usize)
    ensures
        r == reg@.names.dom().len(),
{
    table_len(&reg.names)
}

// ---------------------------------------------------------------------------
// Names in order
// ---------------------------------------------------------------------------

/// Whether `a` comes strictly before `b`, comparing characters by code point
/// and a proper prefix first.
pub open spec fn lex_lt(a: Seq<char>, b: Seq<char>) -> bool
    decreases a.len(),
{
    if a.len() == 0 {
        b.len() > 0
    } else if b.len() == 0 {
        false
    } else if a[0] != b[0] {
        a[0] < b[0]
    } else {
        lex_lt(a.drop_first(), b.drop_first())
    }
}

/// `lex_lt` is irreflexive.
pub proof fn lemma_lex_irreflexive(a: Seq<char>)
    ensures
        !lex_lt(a, a),
    decreases a.len(),
{
    if a.len() > 0 {
        lemma_lex_irreflexive(a.drop_first());
    }
}

/// Of two different sequences, one comes before the other.
pub proof fn lemma_lex_total(a: Seq<char>, b: Seq<char>)
    requires
        a != b,
    ensures
        lex_lt(a, b) || lex_lt(b, a),
    decreases a.len(),
{
    if a.len() > 0 && b.len() > 0 && a[0] == b[0] {
        if a.drop_first() == b.drop_first() {
            assert(a =~= seq![a[0]] + a.drop_first());
            assert(b =~= seq![b[0]] + b.drop_first());
        }
        lemma_lex_total(a.drop_first(), b.drop_first());
    } else if a.len() == 0 && b.len() == 0 {
        assert(a =~= b);
    }
}

/// `lex_lt` is transitive.
pub proof fn lemma_lex_transitive(a: Seq<char>, b: Seq<char>, c: Seq<char>)
    requires
        lex_lt(a, b),
        lex_lt(b, c),
    ensures
        lex_lt(a, c),
    decreases a.len(),
{
    if a.len() > 0 && b.len() > 0 && c.len() > 0 && a[0] == b[0] && b[0] == c[0] {
        lemma_lex_transitive(a.drop_first(), b.drop_first(), c.drop_first());
    }
}

/// Whether `a` comes strictly before `b`, as `lex_lt` states.
fn chars_lt(a: &Vec<char>, b: &Vec<char>) -> (r: bool)
    ensures
        r == lex_lt(a@, b@),
{
    let mut i: usize = 0;
    assert(a@.subrange(0, a@.len() as int) =~= a@);
    assert(b@.subrange(0, b@.len() as int) =~= b@);
    while i < a.len() && i < b.len() && a[i] == b[i]
        invariant
            i <= a@.len(),
            i <= b@.len(),
            lex_lt(a@, b@) == lex_lt(a@.subrange(i as int, a@.len() as int), b@.subrange(i as int, b@.len() as int)),
        decreases a.len() - i,
    {
        proof {
            let sa = a@.subrange(i as int, a@.len() as int);
            let sb = b@.subrange(i as int, b@.len() as int);
            assert(sa.drop_first() =~= a@.subrange(i + 1, a@.len() as int));
            assert(sb.drop_first() =~= b@.subrange(i + 1, b@.len() as int));
        }
        i = i + 1;
    }
    if i == a.len() {
        i < b.len()
    } else if i == b.len() {
        false
    } else {
        proof {
            let sa = a@.subrange(i as int, a@.len() as int);
            let sb = b@.subrange(i as int, b@.len() as int);
            assert(sa[0] == a@[i as int] && sb[0] == b@[i as int]);
        }
        a[i] < b[i]
    }
}

/// The order of symbols: named symbols by name, before the anonymous ones,
/// which go by id.
pub open spec fn symbol_order(a: SymbolModel, b: SymbolModel) -> Ordering {
    match (a.1, b.1) {
        (Some(x), Some(y)) => if lex_lt(x, y) {
            Ordering::Less
        } else if x == y {
            Ordering::Equal
        } else {
            Ordering::Greater
        },
        (Some(_), None) => Ordering::Less,
        (None, Some(_)) => Ordering::Greater,
        (None, None) => if a.0 < b.0 {
            Ordering::Less
        } else if a.0 == b.0 {
            Ordering::Equal
        } else {
            Ordering::Greater
        },
    }
}

impl InternedSymbol {
    /// How this symbol orders against `other`, as `symbol_order` states.
    pub fn cmp(&self, other: &InternedSymbol) -> (r: Ordering)
        ensures
            r == symbol_order(self@, other@),
    {
        match &self.name {
            Some(a) => match &other.name {
                Some(b) => {
                    let ca = chars_of(a.as_str());
                    let cb = chars_of(b.as_str());
                    if chars_lt(&ca, &cb) {
                        Ordering::Less
                    } else if chars_lt(&cb, &ca) {
                        proof {
                            if ca@ == cb@ {
                                lemma_lex_irreflexive(ca@);
                            }
                        }
                        Ordering::Greater
                    } else {
                        proof {
                            if ca@ != cb@ {
                                lemma_lex_total(ca@, cb@);
                            }
                        }
                        Ordering::Equal
                    }
                },
                None => Ordering::Less,
            },
            None => match &other.name {
                Some(_) => Ordering::Greater,
                None => if self.id < other.id {
                    Ordering::Less
                } else if self.id == other.id {
                    Ordering::Equal
                } else {
                    Ordering::Greater
                },
            },
        }
    }
}

/// Symbols are totally ordered: two symbols order oppositely each way round,
/// compare equal exactly when they have the same name (or, both anonymous,
/// the same id), and the order is transitive.
pub proof fn law_symbol_order_is_total(a: SymbolModel, b: SymbolModel, c: SymbolModel)
    ensures
        symbol_order(a, b) == Ordering::Less <==> symbol_order(b, a) == Ordering::Greater,
        symbol_order(a, b) == Ordering::Equal <==> (a.1 == b.1 && (a.1 is None ==> a.0 == b.0)),
        symbol_order(a, b) == Ordering::Less && symbol_order(b, c) == Ordering::Less ==> symbol_order(a, c) == Ordering::Less,
{
    if let (Some(x), Some(y)) = (a.1, b.1) {
        lemma_lex_irreflexive(x);
        if x != y {
            lemma_lex_total(x, y);
        }
        if lex_lt(x, y) && lex_lt(y, x) {
            lemma_lex_transitive(x, y, x);
        }
        if let Some(z) = c.1 {
            if lex_lt(x, y) && lex_lt(y, z) {
                lemma_lex_transitive(x, y, z);
            }
        }
    }
}

/// The names the strings hold, in order.
pub open spec fn name_seq(s: Seq<String>) -> Seq<Seq<char>> {
    s.map_values(|x: String| x@)
}

/// Whether the names are strictly increasing in `lex_lt` order.
pub open spec fn strictly_sorted(s: Seq<Seq<char>>) -> bool {
    forall|i: int, j: int| 0 <= i < j < s.len() ==> lex_lt(#[trigger] s[i], #[trigger] s[j])
}

/// Insert `name`, different from every name in `out`, keeping `out` sorted.
fn insert_in_order(out: &mut Vec<String>, name: String)
    requires
        strictly_sorted(name_seq(old(out)@)),
        !name_seq(old(out)@).contains(name@),
    ensures
        strictly_sorted(name_seq(final(out)@)),
        name_seq(final(out)@).to_set() == name_seq(old(out)@).to_set().insert(name@),
        final(out)@.len() == old(out)@.len() + 1,
{
    let ghost v = name_seq(out@);
    let key = chars_of(name.as_str());
    let mut pos: usize = 0;
    while pos < out.len() && !chars_lt(&key, &chars_of(out[pos].as_str()))
        invariant
            pos <= out@.len(),
            key@ == name@,
            v == name_seq(out@),
            forall|i: int| 0 <= i < pos ==> !lex_lt(name@, #[trigger] v[i]),
        decreases out.len() - pos,
    {
        pos = pos + 1;
    }
    proof {
        assert forall|i: int| 0 <= i < pos implies lex_lt(#[trigger] v[i], name@) by {
            assert(v[i] != name@);
            lemma_lex_total(v[i], name@);
        }
        if pos < v.len() {
            assert forall|i: int| pos <= i < v.len() implies lex_lt(name@, #[trigger] v[i]) by {
                if i > pos {
                    lemma_lex_transitive(name@, v[pos as int], v[i]);
                }
            }
        }
    }
    out.insert(pos, name);
    proof {
        let w = name_seq(out@);
        assert(w =~= v.insert(pos as int, name@));
        assert forall|i: int, j: int| 0 <= i < j < w.len() implies lex_lt(#[trigger] w[i], #[trigger] w[j]) by {
            if j < pos {
                assert(w[i] == v[i] && w[j] == v[j]);
            } else if j == pos {
                assert(w[i] == v[i]);
            } else if i == pos {
                assert(w[j] == v[j - 1]);
            } else if i < pos {
                assert(w[i] == v[i] && w[j] == v[j - 1]);
            } else {
                assert(w[i] == v[i - 1] && w[j] == v[j - 1]);
            }
        }
        assert forall|x: Seq<char>| #[trigger] w.to_set().contains(x) <==> v.to_set().insert(name@).contains(x) by {
            if w.contains(x) {
                let i = choose|i: int| 0 <= i < w.len() && w[i] == x;
                if i < pos {
                    assert(v[i] == x);
                } else if i > pos {
                    assert(v[i - 1] == x);
                }
            }
            if v.contains(x) {
                let i = choose|i: int| 0 <= i < v.len() && v[i] == x;
                if i < pos {
                    assert(w[i] == x);
                } else {
                    assert(w[i + 1] == x);
                }
            }
            if x == name@ {
                assert(w[pos as int] == x);
            }
        }
        assert(w.to_set() =~= v.to_set().insert(name@));
    }
}

/// Every registered name once, in `lex_lt` order.
pub fn symbol_names(reg: &SymbolRegistry) -> (r: Vec<String>)
    ensures
        r@.len() == reg@.names.dom().len(),
        name_seq(r@).to_set() == reg@.names.dom(),
        strictly_sorted(name_seq(r@)),
{
    let names = table_names(&reg.names);
    let ghost all = name_seq(names@);
    proof {
        assert forall|i: int, j: int| 0 <= i < j < all.len() implies #[trigger] all[i] != #[trigger] all[j] by {
            assert(all[i] == names@[i]@ && all[j] == names@[j]@);
        }
    }
    let mut out: Vec<String> = Vec::new();
    let mut k: usize = 0;
    assert(name_seq(out@).to_set() =~= all.subrange(0, 0).to_set());
    while k < names.len()
        invariant
            k <= names@.len(),
            all == name_seq(names@),
            out@.len() == k,
            forall|i: int, j: int| 0 <= i < j < all.len() ==> #[trigger] all[i] != #[trigger] all[j],
            strictly_sorted(name_seq(out@)),
            name_seq(out@).to_set() == all.subrange(0, k as int).to_set(),
        decreases names.len() - k,
    {
        let name = names[k].clone();
        proof {
            assert(name@ == all[k as int]);
            if name_seq(out@).contains(name@) {
                assert(name_seq(out@).to_set().contains(name@));
                assert(all.subrange(0, k as int).to_set().contains(name@));
                let i = choose|i: int| 0 <= i < k && #[trigger] all.subrange(0, k as int)[i] == name@;
                assert(all[i] == all[k as int]);
            }
        }
        insert_in_order(&mut out, name);
        proof {
            assert(all.subrange(0, k + 1).to_set() =~= all.subrange(0, k as int).to_set().insert(all[k as int])) by {
                assert forall|x: Seq<char>| #[trigger] all.subrange(0, k + 1).to_set().contains(x)
                    <==> all.subrange(0, k as int).to_set().insert(all[k as int]).contains(x) by {
                    if all.subrange(0, k + 1).contains(x) {
                        let i = choose|i: int| 0 <= i < k + 1 && #[trigger] all.subrange(0, k + 1)[i] == x;
                        if i < k {
                            assert(all.subrange(0, k as int)[i] == x);
                        }
                    }
                    if all.subrange(0, k as int).contains(x) {
                        let i = choose|i: int| 0 <= i < k && #[trigger] all.subrange(0, k as int)[i] == x;
                        assert(all.subrange(0, k + 1)[i] == x);
                    }
                    if x == all[k as int] {
                        assert(all.subrange(0, k + 1)[k as int] == x);
                    }
                }
            }
        }
        k = k + 1;
    }
    proof {
        assert(all.subrange(0, all.len() as int) =~= all);
        let d = reg@.names.dom();
        assert forall|x: Seq<char>| #[trigger] all.to_set().contains(x) implies d.contains(x) by {
            let i = choose|i: int| 0 <= i < all.len() && all[i] == x;
            assert(all[i] == names@[i]@);
        }
        assert forall|x: Seq<char>| #[trigger] d.contains(x) implies all.to_set().contains(x) by {
            assert(reg@.names.contains_key(x));
            let i = choose|i: int| 0 <= i < names@.len() && names@[i]@ == x;
            assert(all[i] == x);
        }
        assert(all.to_set() =~= d);
    }
    out
}

// ---------------------------------------------------------------------------
// Laws
// ---------------------------------------------------------------------------

/// A registry whose names each hold their own symbol, with ids below the
/// counter, pairwise different, and found again in the id table.
pub open spec fn consistent(m: RegistryModel) -> bool {
    &&& forall|n: Seq<char>| #[trigger] m.names.contains_key(n) ==> {
        &&& m.names[n].1 == Some(n)
        &&& m.names[n].0 < m.next_id
        &&& m.names[n].0 < m.ids.len()
        &&& m.ids[m.names[n].0 as int] == Some(m.names[n])
    }
    &&& forall|a: Seq<char>, b: Seq<char>| #[trigger] m.names.contains_key(a) && #[trigger] m.names.contains_key(b)
        && a != b ==> m.names[a].0 != m.names[b].0
}

/// Interning a name a second time gives back the same symbol and changes nothing.
pub proof fn law_intern_idempotent(m: RegistryModel, name: Seq<char>)
    ensures
        interned(interned(m, name).0, name) == (interned(m, name).0, interned(m, name).1),
{
}

/// Interning keeps a registry consistent while the id counter does not wrap:
/// every name keeps its own symbol, and different names have different ids.
pub proof fn law_intern_keeps_consistent(m: RegistryModel, name: Seq<char>)
    requires
        consistent(m),
        m.next_id < u64::MAX,
    ensures
        consistent(interned(m, name).0),
{
    if !m.names.contains_key(name) {
        let m1 = interned(m, name).0;
        let sym = (m.next_id, Some(name));
        let grown = if m.ids.len() <= m.next_id {
            m.ids + Seq::new((m.next_id + 32 - m.ids.len()) as nat, |i: int| None::<SymbolModel>)
        } else {
            m.ids
        };
        assert forall|n: Seq<char>| #[trigger] m1.names.contains_key(n) implies {
            &&& m1.names[n].1 == Some(n)
            &&& m1.names[n].0 < m1.next_id
            &&& m1.names[n].0 < m1.ids.len()
            &&& m1.ids[m1.names[n].0 as int] == Some(m1.names[n])
        } by {
            if n != name {
                assert(m.names.contains_key(n));
                assert(grown[m.names[n].0 as int] == m.ids[m.names[n].0 as int]);
            }
        }
    }
}

/// In a consistent registry, the symbol interning gives is found again by its id.
pub proof fn law_lookup_finds_interned(m: RegistryModel, name: Seq<char>)
    requires
        consistent(m),
        m.next_id < u64::MAX,
    ensures
        ({
            let (m1, s) = interned(m, name);
            s.0 < m1.ids.len() && m1.ids[s.0 as int] == Some(s)
        }),
{
    law_intern_keeps_consistent(m, name);
}

/// After removing a name, no symbol is registered under it.
pub proof fn law_removed_is_gone(m: RegistryModel, name: Seq<char>)
    ensures
        !removed(m, name).names.contains_key(name),
{
}

/// After clearing, interning a name draws an id that no name registered
/// before the clearing held: the counter carries on past them.
pub proof fn law_ids_stay_fresh_after_clear(m: RegistryModel, name: Seq<char>, n: Seq<char>)
    requires
        well_named(m),
        m.names.contains_key(n),
    ensures
        ({
            let cleared = RegistryModel { names: Map::empty(), ids: Seq::empty(), next_id: m.next_id };
            interned(cleared, name).1.0 != m.names[n].0
        }),
{
}

/// Interning a name not yet registered adds one to the number of names;
/// interning a registered one leaves it as it is.
pub proof fn law_intern_counts_new_names(m: RegistryModel, name: Seq<char>)
    requires
        m.names.dom().finite(),
    ensures
        interned(m, name).0.names.dom().len()
            == m.names.dom().len() + (if m.names.contains_key(name) { 0int } else { 1int }),
{
    if !m.names.contains_key(name) {
        assert(interned(m, name).0.names.dom() =~= m.names.dom().insert(name));
    }
}

/// Removing a registered name takes one from the number of names and leaves
/// every other name with its symbol; removing an unknown name changes nothing.
pub proof fn law_remove_counts_and_keeps_others(m: RegistryModel, name: Seq<char>, other: Seq<char>)
    requires
        m.names.dom().finite(),
        other != name,
    ensures
        removed(m, name).names.dom().len()
            == m.names.dom().len() - (if m.names.contains_key(name) { 1int } else { 0int }),
        removed(m, name).names.contains_key(other) == m.names.contains_key(other),
        m.names.contains_key(other) ==> removed(m, name).names[other] == m.names[other],
        !m.names.contains_key(name) ==> removed(m, name) == m,
{
    if m.names.contains_key(name) {
        assert(removed(m, name).names.dom() =~= m.names.dom().remove(name));
    }
}

/// Interning keeps every registry well named, and the symbol it gives
/// carries the name asked for.
pub proof fn law_intern_keeps_well_named(m: RegistryModel, name: Seq<char>)
    requires
        well_named(m),
        m.next_id < u64::MAX,
    ensures
        well_named(interned(m, name).0),
        interned(m, name).1.1 == Some(name),
{
    let m1 = interned(m, name).0;
    if !m.names.contains_key(name) {
        assert forall|a: Seq<char>, b: Seq<char>| #[trigger] m1.names.contains_key(a) && #[trigger] m1.names.contains_key(b)
            && a != b implies m1.names[a].0 != m1.names[b].0 by {
            if a != name {
                assert(m.names.contains_key(a));
            }
            if b != name {
                assert(m.names.contains_key(b));
            }
        }
    }
}

} // verus!
