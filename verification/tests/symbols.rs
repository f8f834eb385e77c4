use std::cmp::Ordering;
use symb_anafis::symbol::{
    clear_symbols, lookup_by_id, register_in_id_registry, remove_symbol, symb, symb_get, symb_interned,
    symb_new, symbol_count, symbol_exists, symbol_names, InternedSymbol, SymbolError, SymbolRegistry,
};

#[test]
fn interning_twice_gives_the_same_symbol() {
    let mut reg = SymbolRegistry::new();
    let a = symb_interned(&mut reg, "alpha");
    let b = symb_interned(&mut reg, "alpha");
    assert_eq!(a.id(), b.id());
    assert_eq!(a.id(), 1);
    assert_eq!(b.name(), Some("alpha"));
    assert_eq!(symbol_count(&reg), 1);
    let c = symb_interned(&mut reg, "beta");
    assert_eq!(c.id(), 2);
    assert_ne!(a.id(), c.id());
}

#[test]
fn symb_new_rejects_a_known_name() {
    let mut reg = SymbolRegistry::new();
    let s = symb_new(&mut reg, "x").unwrap();
    assert_eq!(s.id(), 1);
    assert_eq!(symb_new(&mut reg, "x"), Err(SymbolError::DuplicateName("x".to_string())));
    assert_eq!(symb_get(&reg, "x"), Ok(s));
    assert_eq!(symb_get(&reg, "y"), Err(SymbolError::NotFound("y".to_string())));
    assert_eq!(symb(&mut reg, "x"), s);
}

#[test]
fn lookup_finds_interned_symbols_and_register_grows_the_table() {
    let mut reg = SymbolRegistry::new();
    let a = symb_interned(&mut reg, "a");
    let found = lookup_by_id(&reg, a.id()).unwrap();
    assert_eq!(found.id(), a.id());
    assert_eq!(found.as_str(), "a");
    assert!(lookup_by_id(&reg, 1000).is_none());
    register_in_id_registry(&mut reg, 100, InternedSymbol::new_anon_with_id(100));
    let anon = lookup_by_id(&reg, 100).unwrap();
    assert_eq!(anon.name(), None);
    assert_eq!(anon.as_str(), "");
    assert!(lookup_by_id(&reg, 101).is_none());
}

#[test]
fn remove_and_clear_forget_names() {
    let mut reg = SymbolRegistry::new();
    let a = symb_interned(&mut reg, "a");
    let b = symb_interned(&mut reg, "b");
    assert!(symbol_exists(&reg, "a"));
    assert!(remove_symbol(&mut reg, "a"));
    assert_eq!(symb_get(&reg, "b").unwrap().id(), b.id());
    assert!(!symbol_exists(&reg, "a"));
    assert!(!remove_symbol(&mut reg, "a"));
    assert!(lookup_by_id(&reg, a.id()).is_none());
    assert_eq!(symbol_count(&reg), 1);
    clear_symbols(&mut reg);
    assert_eq!(symbol_count(&reg), 0);
    // the id counter carries on after clearing
    let c = symb_interned(&mut reg, "c");
    assert_eq!(c.id(), 3);
}

#[test]
fn symbol_names_are_sorted() {
    let mut reg = SymbolRegistry::new();
    for n in ["zeta", "alpha", "mu", "al", "Beta"] {
        symb_interned(&mut reg, n);
    }
    assert_eq!(symbol_names(&reg), vec!["Beta", "al", "alpha", "mu", "zeta"]);
}

#[test]
fn context_counter_draws_ids() {
    let mut counter = 7u64;
    let s = InternedSymbol::new_named_for_context("k", &mut counter);
    assert_eq!(s.id(), 7);
    assert_eq!(counter, 8);
    let mut top = u64::MAX;
    let t = InternedSymbol::new_named_for_context("k", &mut top);
    assert_eq!(t.id(), u64::MAX);
    assert_eq!(top, 0);
    assert_eq!(t.name_arc(), Some("k".to_string()));
}

#[test]
fn symbols_order_by_name_then_anonymous_by_id() {
    let a = InternedSymbol::new_named("alpha", 9);
    let b = InternedSymbol::new_named("beta", 1);
    let anon1 = InternedSymbol::new_anon(1);
    let anon2 = InternedSymbol::new_anon(2);
    assert_eq!(a.cmp(&b), Ordering::Less);
    assert_eq!(b.cmp(&a), Ordering::Greater);
    assert_eq!(a.cmp(&InternedSymbol::new_named("alpha", 3)), Ordering::Equal);
    assert_eq!(InternedSymbol::new_named("al", 0).cmp(&a), Ordering::Less);
    assert_eq!(b.cmp(&anon1), Ordering::Less);
    assert_eq!(anon2.cmp(&b), Ordering::Greater);
    assert_eq!(anon1.cmp(&anon2), Ordering::Less);
    assert_eq!(anon2.cmp(&anon2), Ordering::Equal);
}

#[test]
fn symbol_builders_look_the_name_up() {
    let mut reg = SymbolRegistry::new();
    let x = symb(&mut reg, "x");
    assert_eq!(x.to_expr(&reg).unwrap().to_display_string(), "x");
    assert_eq!(x.sin(&reg).unwrap().to_display_string(), "sin(x)");
    assert_eq!(x.exp_polar(&reg).unwrap().to_display_string(), "exp_polar(x)");
    assert!(symb_anafis::symbol::Symbol::from_id(999).to_expr(&reg).is_none());
    assert!(remove_symbol(&mut reg, "x"));
    assert!(x.cos(&reg).is_none());
}
