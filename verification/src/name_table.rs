//! The symbol table: every declaration of a program, by its id.
//!
//! Inserting a symbol mints a fresh id and writes it back into the symbol, so
//! two declarations of one name always have two ids.
use vstd::prelude::*;

use crate::symbol::{Symbol, SymbolId, SymbolView};

verus! {

/// All symbols of one program, addressed by id.
#[derive(Clone, Debug)]
pub struct NameTable {
    symbols: Vec<Symbol>,
}

/// The contents of a table are its symbols, in insertion order.
impl View for NameTable {
    type V = Seq<SymbolView>;

    closed spec fn view(&self) -> Seq<SymbolView> {
        self.symbols@.map_values(|s: Symbol| s@)
    }
}

/// The symbol `id` names, if any.
pub open spec fn lookup(t: Seq<SymbolView>, id: SymbolId) -> Option<SymbolView> {
    if id.0 < t.len() {
        Some(t[id.0 as int])
    } else {
        None
    }
}

/// Whether every symbol carries the id it is found under.
pub open spec fn ids_agree(t: Seq<SymbolView>) -> bool {
    forall|i: int| 0 <= i < t.len() ==> (#[trigger] t[i]).id.0 == i
}

impl Default for NameTable {
    fn default() -> (r: NameTable)
        ensures
            r@ == Seq::<SymbolView>::empty(),
    {
        let r = NameTable { symbols: Vec::new() };
        assert(r@ =~= Seq::empty());
        r
    }
}

impl NameTable {
    /// Inserts `sym` under a fresh id, which replaces the id it came with.
    pub fn insert(&mut self, mut sym: Symbol) -> (r: SymbolId)
        requires
            old(self)@.len() <= u32::MAX,
        ensures
            r.0 == old(self)@.len(),
            final(self)@ == old(self)@.push(SymbolView { id: r, ..sym@ }),
    {
        let ghost given = sym@;
        let id = SymbolId(self.symbols.len() as u32);
        sym.id = id;
        self.symbols.push(sym);
        assert(self@ =~= old(self)@.push(SymbolView { id, ..given }));
        id
    }

    /// The symbol with the id.
    pub fn get(&self, id: SymbolId) -> (r: Option<&Symbol>)
        ensures
            match lookup(self@, id) {
                Some(s) => r matches Some(x) && x@ == s,
                None => r is None,
            },
    {
        if (id.0 as usize) < self.symbols.len() {
            Some(&self.symbols[id.0 as usize])
        } else {
            None
        }
    }

    /// The symbol with the id, to be changed in place.
    pub fn get_mut(&mut self, id: SymbolId) -> (r: Option<&mut Symbol>)
        ensures
            match lookup(old(self)@, id) {
                Some(s) => r matches Some(x) && x@ == s && final(self)@ == old(self)@.update(
                    id.0 as int,
                    final(x)@,
                ),
                None => r is None && final(self)@ == old(self)@,
            },
    {
        if (id.0 as usize) < self.symbols.len() {
            Some(&mut self.symbols[id.0 as usize])
        } else {
            None
        }
    }

    /// All symbols, in insertion order.
    pub fn all(&self) -> (r: &[Symbol])
        ensures
            r@.map_values(|s: Symbol| s@) == self@,
    {
        self.symbols.as_slice()
    }

    /// Number of symbols.
    pub fn len(&self) -> (r: usize)
        ensures
            r == self@.len(),
    {
        self.symbols.len()
    }

    /// Whether there are no symbols.
    pub fn is_empty(&self) -> (r: bool)
        ensures
            r == (self@.len() == 0),
    {
        self.symbols.len() == 0
    }
}

/// The table after inserting each of `syms` in turn.
pub open spec fn inserted(t: Seq<SymbolView>, syms: Seq<SymbolView>) -> Seq<SymbolView>
    decreases syms.len(),
{
    if syms.len() == 0 {
        t
    } else {
        let before = inserted(t, syms.drop_last());
        before.push(SymbolView { id: SymbolId(before.len() as u32), ..syms.last() })
    }
}

/// Insertions hand out distinct, increasing ids, and each symbol is found under
/// its own: whatever is inserted, names that shadow one another included.
pub proof fn law_insertions_have_distinct_ids(syms: Seq<SymbolView>)
    requires
        syms.len() <= u32::MAX + 1,
    ensures
        ids_agree(inserted(Seq::empty(), syms)),
        inserted(Seq::empty(), syms).len() == syms.len(),
        forall|i: int, j: int|
            #![trigger inserted(Seq::empty(), syms)[i], inserted(Seq::empty(), syms)[j]]
            0 <= i < j < syms.len() ==> inserted(Seq::empty(), syms)[i].id.0 < inserted(
                Seq::empty(),
                syms,
            )[j].id.0,
        forall|i: int|
            0 <= i < syms.len() ==> (#[trigger] inserted(Seq::empty(), syms)[i]).name
                == syms[i].name,
    decreases syms.len(),
{
    if syms.len() > 0 {
        law_insertions_have_distinct_ids(syms.drop_last());
        let t = inserted(Seq::empty(), syms);
        assert forall|i: int| 0 <= i < syms.len() - 1 implies (#[trigger] t[i]).name
            == syms[i].name by {
            assert(t[i] == inserted(Seq::empty(), syms.drop_last())[i]);
            assert(syms.drop_last()[i] == syms[i]);
        }
    }
}

} // verus!
