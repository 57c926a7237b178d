//! Nothing in a program is passed over by a walk, and closures capture what they use.
use vstd::prelude::*;

use crate::ast::{
    Block, Expr, ExprKind, FieldInit, Ident, InterpPart, MatchArm, Stmt, StmtKind, TopLevel,
};
use crate::capture::{
    captures_of, holds, is_outer, law_captures, punned_uses, uses_in, uses_of, ResolvedRef,
};
use crate::descend::{
    arm_descendants, boxed_descendants, expr_descendants, field_descendants, file_descendants,
    list_descendants, one_stmt_descendants, opt_block_descendants, part_descendants,
    stmt_descendants, Visit,
};
use crate::name_table::lookup;
use crate::source::Span;
use crate::symbol::{SymbolId, SymbolKind, SymbolView};
use crate::tables::at;

verus! {

/// Whether `x` is what stands in a place.
pub open spec fn stands_in(place: Option<Box<Expr>>, x: Expr) -> bool {
    place == Some(Box::new(x))
}

/// Whether `x` stands directly in a statement.
pub open spec fn in_stmt(s: Stmt, x: Expr) -> bool {
    match s.kind {
        StmtKind::Var { init, .. } => stands_in(init, x),
        StmtKind::Assign { value, .. } => stands_in(value, x),
        StmtKind::PlaceAssign(store) => stands_in(store.target, x) || stands_in(store.value, x),
        StmtKind::Expr(e) => stands_in(e, x),
        StmtKind::Other => false,
    }
}

pub open spec fn in_stmts(stmts: Seq<Stmt>, x: Expr) -> bool {
    exists|i: int| 0 <= i < stmts.len() && in_stmt(#[trigger] stmts[i], x)
}

pub open spec fn in_block(b: Option<Block>, x: Expr) -> bool {
    b is Some && in_stmts(b->0.stmts@, x)
}

/// Whether `x` stands directly in `e`, or in a statement of a block of `e`.
pub open spec fn within(x: Expr, e: Expr) -> bool {
    match e.kind {
        ExprKind::Interp(parts) => parts@.contains(InterpPart::Hole(x)),
        ExprKind::Bin { lhs, rhs, .. } => stands_in(lhs, x) || stands_in(rhs, x),
        ExprKind::Range { start, end, .. } => stands_in(start, x) || stands_in(end, x),
        ExprKind::Unary { operand, .. } => stands_in(operand, x),
        ExprKind::Paren(inner) => stands_in(inner, x),
        ExprKind::Block(b) => in_stmts(b.stmts@, x),
        ExprKind::If { cond, then_branch, else_branch } => stands_in(cond, x) || in_block(
            then_branch,
            x,
        ) || stands_in(else_branch, x),
        ExprKind::While { cond, body } => stands_in(cond, x) || in_block(body, x),
        ExprKind::For { iter, body, .. } => stands_in(iter, x) || in_block(body, x),
        ExprKind::Loop { body } => in_block(body, x),
        ExprKind::Break(value) => stands_in(value, x),
        ExprKind::Return(value) => stands_in(value, x),
        ExprKind::Call { callee, callee_expr, args, .. } => (callee is None && stands_in(
            callee_expr,
            x,
        )) || args@.contains(x),
        ExprKind::MethodCall { receiver, args, .. } => stands_in(receiver, x) || args@.contains(x),
        ExprKind::Tuple(els) => els@.contains(x),
        ExprKind::List(els) => els@.contains(x),
        ExprKind::Parse { text, .. } => stands_in(text, x),
        ExprKind::RecordLit { fields, .. } => exists|i: int|
            0 <= i < fields@.len() && stands_in((#[trigger] fields@[i]).expr, x),
        ExprKind::FieldGet { receiver, .. } => stands_in(receiver, x),
        ExprKind::TupleIndex { receiver, .. } => stands_in(receiver, x),
        ExprKind::Index { receiver, indices } => stands_in(receiver, x) || indices@.contains(x),
        ExprKind::Match { scrutinee, arms } => stands_in(scrutinee, x) || exists|i: int|
            0 <= i < arms@.len() && stands_in((#[trigger] arms@[i]).body, x),
        ExprKind::Closure { body, .. } => stands_in(body, x),
        _ => false,
    }
}

proof fn lemma_either(a: Seq<Visit>, b: Seq<Visit>, v: Visit)
    ensures
        (a + b).contains(v) <==> a.contains(v) || b.contains(v),
{
    if a.contains(v) {
        let i = choose|i: int| 0 <= i < a.len() && a[i] == v;
        assert((a + b)[i] == v);
    }
    if b.contains(v) {
        let i = choose|i: int| 0 <= i < b.len() && b[i] == v;
        assert((a + b)[a.len() + i] == v);
    }
    if (a + b).contains(v) {
        let i = choose|i: int| 0 <= i < (a + b).len() && (a + b)[i] == v;
        if i < a.len() {
            assert(a[i] == v);
        } else {
            assert(b[i - a.len()] == v);
        }
    }
}

proof fn lemma_in_list(s: Seq<Expr>, x: Expr, v: Visit)
    requires
        s.contains(x),
        expr_descendants(x).contains(v),
    ensures
        list_descendants(s).contains(v),
    decreases s.len(),
{
    lemma_either(list_descendants(s.drop_last()), expr_descendants(s.last()), v);
    if x != s.last() {
        let i = choose|i: int| 0 <= i < s.len() && s[i] == x;
        assert(s.drop_last()[i] == x);
        lemma_in_list(s.drop_last(), x, v);
    }
}

proof fn lemma_in_parts(s: Seq<InterpPart>, x: Expr, v: Visit)
    requires
        s.contains(InterpPart::Hole(x)),
        expr_descendants(x).contains(v),
    ensures
        part_descendants(s).contains(v),
    decreases s.len(),
{
    let last = match s.last() {
        InterpPart::Hole(e) => expr_descendants(e),
        InterpPart::Fragment(_) => Seq::empty(),
    };
    lemma_either(part_descendants(s.drop_last()), last, v);
    if s.last() != InterpPart::Hole(x) {
        let i = choose|i: int| 0 <= i < s.len() && s[i] == InterpPart::Hole(x);
        assert(s.drop_last()[i] == InterpPart::Hole(x));
        lemma_in_parts(s.drop_last(), x, v);
    }
}

proof fn lemma_in_fields(s: Seq<FieldInit>, i: int, x: Expr, v: Visit)
    requires
        0 <= i < s.len(),
        stands_in(s[i].expr, x),
        expr_descendants(x).contains(v),
    ensures
        field_descendants(s).contains(v),
    decreases s.len(),
{
    lemma_either(field_descendants(s.drop_last()), boxed_descendants(s.last().expr), v);
    if i < s.len() - 1 {
        lemma_in_fields(s.drop_last(), i, x, v);
    } else {
        assert(boxed_descendants(Some(Box::new(x))) == expr_descendants(x));
    }
}

proof fn lemma_in_arms(s: Seq<MatchArm>, i: int, x: Expr, v: Visit)
    requires
        0 <= i < s.len(),
        stands_in(s[i].body, x),
        expr_descendants(x).contains(v),
    ensures
        arm_descendants(s).contains(v),
    decreases s.len(),
{
    lemma_either(arm_descendants(s.drop_last()), boxed_descendants(s.last().body), v);
    if i < s.len() - 1 {
        lemma_in_arms(s.drop_last(), i, x, v);
    } else {
        assert(boxed_descendants(Some(Box::new(x))) == expr_descendants(x));
    }
}

proof fn lemma_in_stmt(s: Stmt, x: Expr, v: Visit)
    requires
        in_stmt(s, x),
        expr_descendants(x).contains(v),
    ensures
        one_stmt_descendants(s).contains(v),
{
    assert(boxed_descendants(Some(Box::new(x))) == expr_descendants(x));
    match s.kind {
        StmtKind::Assign { name, value, .. } => {
            let target = match name {
                Some(n) => seq![Visit::Target(n)],
                None => Seq::empty(),
            };
            lemma_either(target, boxed_descendants(value), v);
        },
        StmtKind::PlaceAssign(store) => lemma_either(
            boxed_descendants(store.target),
            boxed_descendants(store.value),
            v,
        ),
        _ => {},
    }
}

proof fn lemma_in_stmts(s: Seq<Stmt>, x: Expr, v: Visit)
    requires
        in_stmts(s, x),
        expr_descendants(x).contains(v),
    ensures
        stmt_descendants(s).contains(v),
    decreases s.len(),
{
    lemma_either(stmt_descendants(s.drop_last()), one_stmt_descendants(s.last()), v);
    let i = choose|i: int| 0 <= i < s.len() && in_stmt(#[trigger] s[i], x);
    if i < s.len() - 1 {
        assert(in_stmt(s.drop_last()[i], x));
        lemma_in_stmts(s.drop_last(), x, v);
    } else {
        lemma_in_stmt(s.last(), x, v);
    }
}

proof fn lemma_in_block(b: Option<Block>, x: Expr, v: Visit)
    requires
        in_block(b, x),
        expr_descendants(x).contains(v),
    ensures
        opt_block_descendants(b).contains(v),
{
    lemma_in_stmts(b->0.stmts@, x, v);
}

/// A walk over an expression comes by the expression, and by all that a walk over
/// any expression in it comes by.
#[verifier::rlimit(40)]
pub proof fn law_walks_pass_nothing_over(e: Expr, x: Expr, v: Visit)
    ensures
        expr_descendants(e).contains(Visit::Expr(e)),
        within(x, e) && expr_descendants(x).contains(v) ==> expr_descendants(e).contains(v),
{
    let all = expr_descendants(e);
    assert(all[0] == Visit::Expr(e));
    if within(x, e) && expr_descendants(x).contains(v) {
        let inside = all.skip(1);
        assert(all =~= seq![Visit::Expr(e)] + inside);
        lemma_either(seq![Visit::Expr(e)], inside, v);
        lemma_inside(e, x, v);
    }
}

#[verifier::rlimit(40)]
proof fn lemma_inside(e: Expr, x: Expr, v: Visit)
    requires
        within(x, e),
        expr_descendants(x).contains(v),
    ensures
        expr_descendants(e).skip(1).contains(v),
{
    let all = expr_descendants(e);
    let one = boxed_descendants(Some(Box::new(x)));
    assert(one == expr_descendants(x));
    match e.kind {
        ExprKind::Interp(parts) => {
            lemma_in_parts(parts@, x, v);
            assert(all.skip(1) =~= part_descendants(parts@));
        },
        ExprKind::Bin { lhs, rhs, .. } => {
            lemma_either(boxed_descendants(lhs), boxed_descendants(rhs), v);
            assert(all.skip(1) =~= boxed_descendants(lhs) + boxed_descendants(rhs));
        },
        ExprKind::Range { start, end, .. } => {
            lemma_either(boxed_descendants(start), boxed_descendants(end), v);
            assert(all.skip(1) =~= boxed_descendants(start) + boxed_descendants(end));
        },
        ExprKind::Block(b) => {
            lemma_in_stmts(b.stmts@, x, v);
            assert(all.skip(1) =~= stmt_descendants(b.stmts@));
        },
        ExprKind::If { cond, then_branch, else_branch } => {
            let a = boxed_descendants(cond);
            let b = opt_block_descendants(then_branch);
            let c = boxed_descendants(else_branch);
            lemma_either(a + b, c, v);
            lemma_either(a, b, v);
            if in_block(then_branch, x) {
                lemma_in_block(then_branch, x, v);
            }
            assert(all.skip(1) =~= a + b + c);
        },
        ExprKind::While { cond, body } => {
            lemma_either(boxed_descendants(cond), opt_block_descendants(body), v);
            if in_block(body, x) {
                lemma_in_block(body, x, v);
            }
            assert(all.skip(1) =~= boxed_descendants(cond) + opt_block_descendants(body));
        },
        ExprKind::For { iter, body, .. } => {
            lemma_either(boxed_descendants(iter), opt_block_descendants(body), v);
            if in_block(body, x) {
                lemma_in_block(body, x, v);
            }
            assert(all.skip(1) =~= boxed_descendants(iter) + opt_block_descendants(body));
        },
        ExprKind::Loop { body } => {
            lemma_in_block(body, x, v);
            assert(all.skip(1) =~= opt_block_descendants(body));
        },
        ExprKind::Call { callee, callee_expr, args, .. } => {
            let a = if callee is None {
                boxed_descendants(callee_expr)
            } else {
                Seq::empty()
            };
            lemma_either(a, list_descendants(args@), v);
            if args@.contains(x) {
                lemma_in_list(args@, x, v);
            }
            assert(all.skip(1) =~= a + list_descendants(args@));
        },
        ExprKind::MethodCall { receiver, args, .. } => {
            lemma_either(boxed_descendants(receiver), list_descendants(args@), v);
            if args@.contains(x) {
                lemma_in_list(args@, x, v);
            }
            assert(all.skip(1) =~= boxed_descendants(receiver) + list_descendants(args@));
        },
        ExprKind::Tuple(els) => {
            lemma_in_list(els@, x, v);
            assert(all.skip(1) =~= list_descendants(els@));
        },
        ExprKind::List(els) => {
            lemma_in_list(els@, x, v);
            assert(all.skip(1) =~= list_descendants(els@));
        },
        ExprKind::RecordLit { fields, .. } => {
            let i = choose|i: int|
                0 <= i < fields@.len() && stands_in((#[trigger] fields@[i]).expr, x);
            lemma_in_fields(fields@, i, x, v);
            assert(all.skip(1) =~= field_descendants(fields@));
        },
        ExprKind::Index { receiver, indices } => {
            lemma_either(boxed_descendants(receiver), list_descendants(indices@), v);
            if indices@.contains(x) {
                lemma_in_list(indices@, x, v);
            }
            assert(all.skip(1) =~= boxed_descendants(receiver) + list_descendants(indices@));
        },
        ExprKind::Match { scrutinee, arms } => {
            lemma_either(boxed_descendants(scrutinee), arm_descendants(arms@), v);
            if !stands_in(scrutinee, x) {
                let i = choose|i: int|
                    0 <= i < arms@.len() && stands_in((#[trigger] arms@[i]).body, x);
                lemma_in_arms(arms@, i, x, v);
            }
            assert(all.skip(1) =~= boxed_descendants(scrutinee) + arm_descendants(arms@));
        },
        _ => {
            assert(all.skip(1) =~= one);
        },
    }
}

/// A walk over a file comes by all that a walk over any expression of a function's
/// body, or of a statement of the file, comes by.
pub proof fn law_walks_cover_files(items: Seq<TopLevel>, i: int, x: Expr, v: Visit)
    requires
        0 <= i < items.len(),
        match items[i] {
            TopLevel::Fn(f) => in_block(f.body, x),
            TopLevel::Stmt(s) => in_stmt(s, x),
            _ => false,
        },
        expr_descendants(x).contains(v),
    ensures
        file_descendants(items).contains(v),
    decreases items.len(),
{
    let last = match items.last() {
        TopLevel::Fn(f) => opt_block_descendants(f.body),
        TopLevel::Stmt(s) => one_stmt_descendants(s),
        _ => Seq::empty(),
    };
    lemma_either(file_descendants(items.drop_last()), last, v);
    if i < items.len() - 1 {
        law_walks_cover_files(items.drop_last(), i, x, v);
    } else {
        match items[i] {
            TopLevel::Fn(f) => lemma_in_block(f.body, x, v),
            TopLevel::Stmt(s) => lemma_in_stmt(s, x, v),
            _ => {},
        }
    }
}

/// A walk comes by the name that an assignment writes.
pub proof fn law_walks_come_by_targets(s: Stmt, n: Ident)
    ensures
        (s.kind matches StmtKind::Assign { name: Some(m), .. } && m == n) ==> one_stmt_descendants(
            s,
        ).contains(Visit::Target(n)),
{
    if let StmtKind::Assign { name: Some(m), value, .. } = s.kind {
        let target = seq![Visit::Target(m)];
        lemma_either(target, boxed_descendants(value), Visit::Target(n));
        assert(target[0] == Visit::Target(m));
    }
}

// ---------------------------------------------------------------------------
// Captures
// ---------------------------------------------------------------------------

/// Whether what is come by uses the name at `range`: a path, the name of a call,
/// the name an assignment writes, or a field that is given by its name alone.
pub open spec fn uses_name(v: Visit, range: Span) -> bool {
    match v {
        Visit::Target(n) => n.range == range,
        Visit::Expr(e) => match e.kind {
            ExprKind::Path(Some(n)) => n.range == range,
            ExprKind::Call { callee: Some(n), .. } => n.range == range,
            ExprKind::RecordLit { fields, .. } => exists|i: int|
                0 <= i < fields@.len() && (#[trigger] fields@[i]).expr is None
                    && fields@[i].name is Some && fields@[i].name->0.range == range,
            _ => false,
        },
    }
}

proof fn lemma_punned(fields: Seq<FieldInit>, i: int)
    requires
        0 <= i < fields.len(),
        fields[i].expr is None,
        fields[i].name is Some,
    ensures
        punned_uses(fields).contains(fields[i].name->0.range),
    decreases fields.len(),
{
    let before = punned_uses(fields.drop_last());
    let all = punned_uses(fields);
    if i < fields.len() - 1 {
        lemma_punned(fields.drop_last(), i);
        let k = choose|k: int| 0 <= k < before.len() && before[k] == fields[i].name->0.range;
        assert(all[k] == fields[i].name->0.range);
    } else {
        assert(all[before.len() as int] == fields[i].name->0.range);
    }
}

proof fn lemma_used(vs: Seq<Visit>, v: Visit, range: Span)
    requires
        vs.contains(v),
        uses_name(v, range),
    ensures
        uses_in(vs).contains(range),
    decreases vs.len(),
{
    let front = uses_in(vs.drop_last());
    let last = uses_of(vs.last());
    if v != vs.last() {
        let i = choose|i: int| 0 <= i < vs.len() && vs[i] == v;
        assert(vs.drop_last()[i] == v);
        lemma_used(vs.drop_last(), v, range);
        let k = choose|k: int| 0 <= k < front.len() && front[k] == range;
        assert((front + last)[k] == range);
    } else {
        if let Visit::Expr(e) = v {
            if let ExprKind::RecordLit { fields, .. } = e.kind {
                let i = choose|i: int|
                    0 <= i < fields@.len() && (#[trigger] fields@[i]).expr is None
                        && fields@[i].name is Some && fields@[i].name->0.range == range;
                lemma_punned(fields@, i);
            } else {
                assert(last[0] == range);
            }
        } else {
            assert(last[0] == range);
        }
        let k = choose|k: int| 0 <= k < last.len() && last[k] == range;
        assert((front + last)[front.len() + k] == range);
    }
}

/// A closure captures every binding from around it that anything in its body uses,
/// however it is used.
pub proof fn law_used_bindings_are_captured(
    body: Expr,
    inside: Span,
    refs: Map<Span, ResolvedRef>,
    names: Seq<SymbolView>,
    v: Visit,
    range: Span,
)
    requires
        expr_descendants(body).contains(v),
        uses_name(v, range),
        at(refs, range) is Some,
        is_outer(names, at(refs, range)->0.symbol, inside),
    ensures
        holds(captures_of(body, inside, refs, names), at(refs, range)->0.symbol),
{
    let uses = uses_in(expr_descendants(body));
    lemma_used(expr_descendants(body), v, range);
    law_captures(uses, inside, refs, names);
    let i = choose|i: int| 0 <= i < uses.len() && uses[i] == range;
    assert(at(refs, uses[i]) is Some);
}

/// What comes from around an extent is a variable or a parameter that is declared
/// outside of it: functions, types, variants and what is built in do not.
pub proof fn law_only_bindings_come_from_around(
    names: Seq<SymbolView>,
    symbol: SymbolId,
    inside: Span,
)
    ensures
        is_outer(names, symbol, inside) <==> {
            let s = lookup(names, symbol);
            &&& s is Some
            &&& s->0.kind == SymbolKind::Let || s->0.kind == SymbolKind::Var || s->0.kind
                == SymbolKind::Param || s->0.kind == SymbolKind::Pattern
            &&& s->0.decl is Some
            &&& s->0.decl->0.span.start < inside.start || inside.end < s->0.decl->0.span.end
        },
{
}

} // verus!
