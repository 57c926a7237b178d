//! The names a closure takes from around it.
use vstd::prelude::*;

use crate::ast::{Expr, ExprKind, FieldInit};
use crate::descend::{descendants_of, expr_descendants, visits, Seen, Visit};
use crate::scope::ScopeId;
use crate::name_table::{lookup, NameTable};
use crate::source::Span;
use crate::symbol::{SymbolId, SymbolView};
use crate::tables::{at, SpanMap};

verus! {

/// A name reference: the declaration it resolved to, and the scope it stands in.
#[derive(Clone, Copy, Debug, PartialEq, Eq, Structural)]
pub struct ResolvedRef {
    pub symbol: SymbolId,
    pub scope: ScopeId,
}

/// A name taken from around a closure, and the reference that takes it first.
#[derive(Clone, Copy, Debug, PartialEq, Eq, Structural)]
pub struct FreeVar {
    pub symbol: SymbolId,
    pub ref_range: Span,
}

/// The fields of a record literal that name a variable by themselves.
pub open spec fn punned_uses(fields: Seq<FieldInit>) -> Seq<Span>
    decreases fields.len(),
{
    if fields.len() == 0 {
        Seq::empty()
    } else {
        let before = punned_uses(fields.drop_last());
        match (fields.last().name, fields.last().expr) {
            (Some(n), None) => before.push(n.range),
            _ => before,
        }
    }
}

/// The name uses one visited thing makes.
pub open spec fn uses_of(v: Visit) -> Seq<Span> {
    match v {
        Visit::Target(n) => seq![n.range],
        Visit::Expr(e) => match e.kind {
            ExprKind::Path(Some(n)) => seq![n.range],
            ExprKind::Call { callee: Some(n), .. } => seq![n.range],
            ExprKind::RecordLit { fields, .. } => punned_uses(fields@),
            _ => Seq::empty(),
        },
    }
}

/// Every name use, in the order they are come by.
pub open spec fn uses_in(vs: Seq<Visit>) -> Seq<Span>
    decreases vs.len(),
{
    if vs.len() == 0 {
        Seq::empty()
    } else {
        uses_in(vs.drop_last()) + uses_of(vs.last())
    }
}

/// Whether a symbol is a binding declared outside `inside`.
pub open spec fn is_outer(names: Seq<SymbolView>, symbol: SymbolId, inside: Span) -> bool {
    match lookup(names, symbol) {
        Some(s) => s.kind.spec_is_local() && (match s.decl {
            Some(d) => !inside.encloses(d.span),
            None => false,
        }),
        None => false,
    }
}

pub open spec fn holds(free: Seq<FreeVar>, symbol: SymbolId) -> bool {
    exists|i: int| 0 <= i < free.len() && (#[trigger] free[i]).symbol == symbol
}

/// The outer bindings among some uses, each once, at its first use.
pub open spec fn free_among(
    uses: Seq<Span>,
    inside: Span,
    refs: Map<Span, ResolvedRef>,
    names: Seq<SymbolView>,
) -> Seq<FreeVar>
    decreases uses.len(),
{
    if uses.len() == 0 {
        Seq::empty()
    } else {
        let before = free_among(uses.drop_last(), inside, refs, names);
        match at(refs, uses.last()) {
            Some(r) => if is_outer(names, r.symbol, inside) && !holds(before, r.symbol) {
                before.push(FreeVar { symbol: r.symbol, ref_range: uses.last() })
            } else {
                before
            },
            None => before,
        }
    }
}

/// What a closure with this body and extent captures.
pub open spec fn captures_of(
    body: Expr,
    inside: Span,
    refs: Map<Span, ResolvedRef>,
    names: Seq<SymbolView>,
) -> Seq<FreeVar> {
    free_among(uses_in(expr_descendants(body)), inside, refs, names)
}

fn push_punned(fields: &Vec<FieldInit>, out: &mut Vec<Span>)
    ensures
        final(out)@ == old(out)@ + punned_uses(fields@),
{
    let mut i: usize = 0;
    assert(out@ =~= old(out)@ + punned_uses(fields@.take(0)));
    while i < fields.len()
        invariant
            i <= fields@.len(),
            out@ == old(out)@ + punned_uses(fields@.take(i as int)),
        decreases fields@.len() - i,
    {
        assert(fields@.take(i + 1).drop_last() =~= fields@.take(i as int));
        assert(fields@.take(i + 1).last() == fields@[i as int]);
        match (&fields[i].name, &fields[i].expr) {
            (Some(n), None) => out.push(n.range),
            _ => {},
        }
        assert(out@ =~= old(out)@ + punned_uses(fields@.take(i + 1)));
        i += 1;
    }
    assert(fields@.take(i as int) =~= fields@);
}

fn collect_uses(body: &Expr) -> (r: Vec<Span>)
    ensures
        r@ == uses_in(expr_descendants(*body)),
{
    let seen = descendants_of(body);
    let ghost all = expr_descendants(*body);
    let mut out: Vec<Span> = Vec::new();
    let mut i: usize = 0;
    assert(out@ =~= uses_in(all.take(0)));
    while i < seen.len()
        invariant
            i <= seen@.len(),
            visits(seen@) == all,
            out@ == uses_in(all.take(i as int)),
        decreases seen@.len() - i,
    {
        let item = seen[i];
        let ghost before = out@;
        assert(all[i as int] == item@);
        assert(all.take(i + 1).drop_last() =~= all.take(i as int));
        match item {
            Seen::Target(n) => out.push(n.range),
            Seen::Expr(e) => match &e.kind {
                ExprKind::Path(Some(n)) => out.push(n.range),
                ExprKind::Call { callee: Some(n), .. } => out.push(n.range),
                ExprKind::RecordLit { fields, .. } => push_punned(fields, &mut out),
                _ => {},
            },
        }
        assert(out@ =~= before + uses_of(item@));
        i += 1;
    }
    assert(all.take(i as int) =~= all);
    out
}

fn outer(names: &NameTable, symbol: SymbolId, inside: Span) -> (r: bool)
    ensures
        r == is_outer(names@, symbol, inside),
{
    match names.get(symbol) {
        Some(s) => s.kind.is_local() && (match s.decl {
            Some(d) => !(inside.start <= d.span.start && d.span.end <= inside.end),
            None => false,
        }),
        None => false,
    }
}

fn captured(free: &Vec<FreeVar>, symbol: SymbolId) -> (r: bool)
    ensures
        r == holds(free@, symbol),
{
    let mut i: usize = 0;
    while i < free.len()
        invariant
            i <= free@.len(),
            forall|j: int| 0 <= j < i ==> (#[trigger] free@[j]).symbol != symbol,
        decreases free@.len() - i,
    {
        if free[i].symbol == symbol {
            return true;
        }
        i += 1;
    }
    false
}

/// The bindings declared outside `inside` that the body of a closure uses, each
/// once, in the order of their first uses.
pub fn analyze(
    body: &Expr,
    inside: Span,
    refs: &SpanMap<ResolvedRef>,
    names: &NameTable,
) -> (r: Vec<FreeVar>)
    ensures
        r@ == captures_of(*body, inside, refs@, names@),
{
    let uses = collect_uses(body);
    let mut out: Vec<FreeVar> = Vec::new();
    let mut i: usize = 0;
    assert(uses@.take(0) =~= Seq::empty());
    while i < uses.len()
        invariant
            i <= uses@.len(),
            out@ == free_among(uses@.take(i as int), inside, refs@, names@),
        decreases uses@.len() - i,
    {
        assert(uses@.take(i + 1).drop_last() =~= uses@.take(i as int));
        let range = uses[i];
        if let Some(r) = refs.get(range) {
            if outer(names, r.symbol, inside) && !captured(&out, r.symbol) {
                out.push(FreeVar { symbol: r.symbol, ref_range: range });
            }
        }
        i += 1;
    }
    assert(uses@.take(i as int) =~= uses@);
    out
}

/// A capture is a binding from outside the closure, named once; and every
/// outside binding the closure uses is captured.
pub proof fn law_captures(
    uses: Seq<Span>,
    inside: Span,
    refs: Map<Span, ResolvedRef>,
    names: Seq<SymbolView>,
)
    ensures
        forall|i: int|
            0 <= i < free_among(uses, inside, refs, names).len() ==> is_outer(
                names,
                (#[trigger] free_among(uses, inside, refs, names)[i]).symbol,
                inside,
            ),
        forall|i: int, j: int|
            #![trigger free_among(uses, inside, refs, names)[i], free_among(uses, inside, refs, names)[j]]
            0 <= i < j < free_among(uses, inside, refs, names).len() ==> free_among(
                uses,
                inside,
                refs,
                names,
            )[i].symbol != free_among(uses, inside, refs, names)[j].symbol,
        forall|i: int|
            0 <= i < uses.len() ==> (at(refs, #[trigger] uses[i]) matches Some(r) ==> (is_outer(
                names,
                r.symbol,
                inside,
            ) ==> holds(free_among(uses, inside, refs, names), r.symbol))),
    decreases uses.len(),
{
    let f = free_among(uses, inside, refs, names);
    if uses.len() > 0 {
        let front = uses.drop_last();
        let b = free_among(front, inside, refs, names);
        law_captures(front, inside, refs, names);
        assert forall|i: int| 0 <= i < f.len() implies is_outer(
            names,
            (#[trigger] f[i]).symbol,
            inside,
        ) by {
            if i < b.len() {
                assert(f[i] == b[i]);
            }
        }
        assert forall|i: int, j: int| #![trigger f[i], f[j]] 0 <= i < j < f.len() implies f[i].symbol
            != f[j].symbol by {
            assert(f[i] == b[i]);
            if j < b.len() {
                assert(f[j] == b[j]);
            } else {
                assert(!holds(b, f[j].symbol));
            }
        }
        assert forall|i: int| 0 <= i < uses.len() implies (at(refs, #[trigger] uses[i]) matches Some(
            r,
        ) ==> (is_outer(names, r.symbol, inside) ==> holds(f, r.symbol))) by {
            if let Some(r) = at(refs, uses[i]) {
                if is_outer(names, r.symbol, inside) {
                    if i < front.len() {
                        assert(front[i] == uses[i]);
                        assert(holds(b, r.symbol));
                    }
                    if holds(b, r.symbol) {
                        let k = choose|k: int|
                            0 <= k < b.len() && (#[trigger] b[k]).symbol == r.symbol;
                        assert(f[k] == b[k]);
                    } else {
                        assert(f[b.len() as int].symbol == r.symbol);
                    }
                }
            }
        }
    }
}

} // verus!
