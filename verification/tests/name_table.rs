//! The symbol table.
use praxis_hir::name_table::NameTable;
use praxis_hir::symbol::{Symbol, SymbolId, SymbolKind};

fn symbol(name: &str) -> Symbol {
    Symbol {
        id: SymbolId(0),
        name: name.into(),
        kind: SymbolKind::Let,
        decl: None,
        reassigned: false,
        scheme: None,
    }
}

#[test]
fn insert_assigns_distinct_increasing_ids() {
    let mut table = NameTable::default();
    let a = table.insert(symbol("a"));
    let b = table.insert(symbol("a")); // same name, shadowing
    assert_ne!(a, b, "shadowed bindings must have distinct ids");
    assert_eq!(a, SymbolId(0));
    assert_eq!(b, SymbolId(1));
    // The id field was written back.
    assert_eq!(table.get(a).unwrap().id, a);
    assert_eq!(table.get(b).unwrap().id, b);
    assert_eq!(table.get(a).unwrap().name, "a");
}

#[test]
fn a_symbol_is_changed_in_place() {
    let mut table = NameTable::default();
    assert!(table.is_empty());
    let a = table.insert(symbol("a"));
    let b = table.insert(symbol("b"));
    table.get_mut(a).unwrap().reassigned = true;
    assert!(table.get(a).unwrap().reassigned);
    assert!(!table.get(b).unwrap().reassigned);
    assert!(table.get(SymbolId(2)).is_none());
    assert!(table.get_mut(SymbolId(2)).is_none());
    assert_eq!(table.len(), 2);
    assert_eq!(table.all().iter().map(|s| s.name.as_str()).collect::<Vec<_>>(), ["a", "b"]);
}
