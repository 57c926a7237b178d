//! The scopes of a file.
use vstd::prelude::*;

use crate::symbol::SymbolId;

verus! {

/// A scope's place in its tree.
#[derive(Clone, Copy, Debug, PartialEq, Eq, Structural)]
pub struct ScopeId(pub u32);

/// The scopes of a file, each inside another, and what each declares.
#[derive(Debug)]
pub struct ScopeTree {
    /// The scope around each scope; the first is the file's own, and around
    /// itself.
    pub parents: Vec<ScopeId>,
    /// What is declared, and in which scope, in order.
    pub members: Vec<(ScopeId, SymbolId)>,
}

/// The contents of a [`ScopeTree`].
pub ghost struct ScopesView {
    pub parents: Seq<ScopeId>,
    pub members: Seq<(ScopeId, SymbolId)>,
}

impl View for ScopeTree {
    type V = ScopesView;

    open spec fn view(&self) -> ScopesView {
        ScopesView { parents: self.parents@, members: self.members@ }
    }
}

/// The scope of a whole file, with nothing declared.
pub open spec fn only_root() -> ScopesView {
    ScopesView { parents: seq![ScopeId(0)], members: Seq::empty() }
}

/// A new scope inside `outer`, unless the scopes cannot be counted any more:
/// then `outer` itself.
pub open spec fn opened(s: ScopesView, outer: ScopeId) -> (ScopeId, ScopesView) {
    if s.parents.len() < u32::MAX {
        (
            ScopeId(s.parents.len() as u32),
            ScopesView { parents: s.parents.push(outer), ..s },
        )
    } else {
        (outer, s)
    }
}

/// `s` with a symbol declared in a scope.
pub open spec fn with_member(s: ScopesView, scope: ScopeId, symbol: SymbolId) -> ScopesView {
    ScopesView { members: s.members.push((scope, symbol)), ..s }
}

/// The scope around a scope; there is none around the file's own.
pub open spec fn scope_around(s: ScopesView, id: ScopeId) -> Option<ScopeId> {
    if 0 < id.0 < s.parents.len() {
        Some(s.parents[id.0 as int])
    } else {
        None
    }
}

/// The symbols declared in a scope, in order.
pub open spec fn declared_in(members: Seq<(ScopeId, SymbolId)>, id: ScopeId) -> Seq<SymbolId>
    decreases members.len(),
{
    if members.len() == 0 {
        Seq::empty()
    } else {
        let before = declared_in(members.drop_last(), id);
        if members.last().0 == id {
            before.push(members.last().1)
        } else {
            before
        }
    }
}

/// Whether every scope but the file's own is inside an earlier one.
pub open spec fn is_tree(s: ScopesView) -> bool {
    s.parents.len() > 0 && forall|i: int|
        0 < i < s.parents.len() ==> (#[trigger] s.parents[i]).0 < i
}

impl ScopeTree {
    /// The tree of a file before anything in it.
    pub fn new() -> (r: ScopeTree)
        ensures
            r@ == only_root(),
    {
        let r = ScopeTree { parents: vec![ScopeId(0)], members: Vec::new() };
        assert(r@.parents =~= seq![ScopeId(0)]);
        assert(r@.members =~= Seq::empty());
        r
    }

    /// The scope of the whole file.
    pub fn root(&self) -> (r: ScopeId)
        ensures
            r == ScopeId(0),
    {
        ScopeId(0)
    }

    /// Opens a scope inside another.
    pub fn open(&mut self, outer: ScopeId) -> (r: ScopeId)
        ensures
            (r, final(self)@) == opened(old(self)@, outer),
    {
        let n: usize = self.parents.len();
        if n < u32::MAX as usize {
            self.parents.push(outer);
            ScopeId(n as u32)
        } else {
            outer
        }
    }

    /// Declares a symbol in a scope.
    pub fn declare(&mut self, scope: ScopeId, symbol: SymbolId)
        ensures
            final(self)@ == with_member(old(self)@, scope, symbol),
    {
        self.members.push((scope, symbol));
    }

    /// The scope around a scope.
    pub fn parent(&self, id: ScopeId) -> (r: Option<ScopeId>)
        ensures
            r == scope_around(self@, id),
    {
        if 0 < id.0 && (id.0 as usize) < self.parents.len() {
            Some(self.parents[id.0 as usize])
        } else {
            None
        }
    }

    /// The symbols declared in a scope, in order.
    pub fn symbols(&self, id: ScopeId) -> (r: Vec<SymbolId>)
        ensures
            r@ == declared_in(self@.members, id),
    {
        let mut out: Vec<SymbolId> = Vec::new();
        let mut i: usize = 0;
        assert(out@ =~= Seq::empty());
        while i < self.members.len()
            invariant
                i <= self.members@.len(),
                out@ == declared_in(self.members@.take(i as int), id),
            decreases self.members@.len() - i,
        {
            assert(self.members@.take(i + 1).drop_last() =~= self.members@.take(i as int));
            if self.members[i].0 == id {
                out.push(self.members[i].1);
            }
            i += 1;
        }
        assert(self.members@.take(i as int) =~= self.members@);
        out
    }
}

/// A new scope stands inside the one it was opened in, and the scopes stay a
/// tree.
pub proof fn law_opened_scopes_nest(s: ScopesView, outer: ScopeId)
    requires
        is_tree(s),
        outer.0 < s.parents.len() < u32::MAX,
    ensures
        is_tree(opened(s, outer).1),
        scope_around(opened(s, outer).1, opened(s, outer).0) == Some(outer),
        opened(s, outer).1.members == s.members,
{
}

} // verus!
