//! What escapes through the closures of a file.
use vstd::prelude::*;

use crate::ast::{
    Block, Expr, ExprKind, FieldInit, InterpPart, MatchArm, Param, Stmt, StmtKind, Store, TopLevel,
};
use crate::capture::captures_of;
use crate::lower_spec::{
    captures, destructured, destructured_one, escaping, lemma_escaping, lower_arms, lower_as_block,
    lower_assign, lower_block, lower_bound, lower_call, lower_closure, lower_closure_body,
    lower_effect, lower_else, lower_expr, lower_field_assign, lower_field_place, lower_fields,
    lower_fn, lower_for, lower_index, lower_index_assign, lower_index_value, lower_interp,
    lower_items, lower_list, lower_match, lower_method_call, lower_module, lower_opt,
    lower_opt_block, lower_parts, lower_place_assign, lower_record_lit, lower_stmt, lower_stmts,
    lower_subscript, lower_value, lower_var, node_ty, reassigned, LowerEnv, LowerState,
};
use crate::name_table::{ids_agree, lookup};
use crate::pattern::build_spec;
use crate::source::Span;
use crate::symbol::{SymbolId, SymbolView};
use crate::tree::{CaptureKind, Tree};
use crate::types::Type;

verus! {

/// Whether each of the symbols is one that something writes.
pub open spec fn cells(env: LowerEnv, s: Seq<SymbolId>) -> bool {
    forall|i: int|
        0 <= i < s.len() ==> (lookup(env.names, #[trigger] s[i]) matches Some(x) && x.reassigned)
}

/// A closure adds only what it holds by a cell, which is written.
proof fn lemma_cells(env: LowerEnv, held: Seq<SymbolId>, body: Option<Box<Expr>>, range: Span)
    requires
        cells(env, held),
    ensures
        ({
            let caught = match body {
                Some(x) => captures(env, captures_of(*x, range, env.refs, env.names)),
                None => Seq::empty(),
            };
            cells(env, escaping(held, caught))
        }),
{
    let caught = match body {
        Some(x) => captures(env, captures_of(*x, range, env.refs, env.names)),
        None => Seq::empty(),
    };
    let all = escaping(held, caught);
    lemma_escaping(held, caught);
    assert forall|i: int| 0 <= i < all.len() implies (lookup(
        env.names,
        #[trigger] all[i],
    ) matches Some(x) && x.reassigned) by {
        assert(all.contains(all[i]));
        if held.contains(all[i]) {
            let k = choose|k: int| 0 <= k < held.len() && held[k] == all[i];
            assert(held[k] == all[i]);
        } else {
            let k = choose|k: int|
                0 <= k < caught.len() && (#[trigger] caught[k]).kind == CaptureKind::ByCell
                    && caught[k].symbol == all[i];
            let fs = captures_of(*body->0, range, env.refs, env.names);
            assert(caught[k] == crate::lower_spec::capture_of(env, fs[k]));
        }
    }
}

proof fn lemma_destructured(
    env: LowerEnv,
    ps: Seq<Param>,
    body: Tree,
    span: (u32, u32),
    st: LowerState,
)
    ensures
        destructured(env, ps, body, span, st).1.escaping == st.escaping,
    decreases ps.len(),
{
    if ps.len() > 0 {
        let (wrapped, after) = destructured_one(env, ps.last(), body, span, st);
        lemma_destructured(env, ps.drop_last(), wrapped, span, after);
    }
}

// ---------------------------------------------------------------------------
// Expressions
// ---------------------------------------------------------------------------

proof fn lemma_opt(env: LowerEnv, e: Option<Box<Expr>>, st: LowerState)
    requires
        cells(env, st.escaping),
    ensures
        cells(env, lower_opt(env, e, st).1.escaping),
    decreases e, 0nat,
{
    if let Some(b) = e {
        lemma_expr(env, *b, st);
    }
}

proof fn lemma_value(env: LowerEnv, e: Option<Box<Expr>>, st: LowerState)
    requires
        cells(env, st.escaping),
    ensures
        cells(env, lower_value(env, e, st).1.escaping),
    decreases e, 0nat,
{
    if let Some(b) = e {
        lemma_expr(env, *b, st);
    }
}

proof fn lemma_bound(env: LowerEnv, e: Option<Box<Expr>>, span: (u32, u32), st: LowerState)
    requires
        cells(env, st.escaping),
    ensures
        cells(env, lower_bound(env, e, span, st).1.escaping),
    decreases e, 0nat,
{
    if let Some(b) = e {
        lemma_expr(env, *b, st);
    }
}

proof fn lemma_else(env: LowerEnv, e: Option<Box<Expr>>, st: LowerState)
    requires
        cells(env, st.escaping),
    ensures
        cells(env, lower_else(env, e, st).1.escaping),
    decreases e, 0nat,
{
    if let Some(b) = e {
        lemma_as_block(env, *b, st);
    }
}

proof fn lemma_closure_body(env: LowerEnv, e: Option<Box<Expr>>, span: (u32, u32), st: LowerState)
    requires
        cells(env, st.escaping),
    ensures
        cells(env, lower_closure_body(env, e, span, st).1.escaping),
    decreases e, 0nat,
{
    if let Some(b) = e {
        lemma_as_block(env, *b, st);
    }
}

proof fn lemma_list(env: LowerEnv, es: Seq<Expr>, st: LowerState)
    requires
        cells(env, st.escaping),
    ensures
        cells(env, lower_list(env, es, st).1.escaping),
    decreases es, 0nat,
{
    if es.len() > 0 {
        lemma_list(env, es.drop_last(), st);
        lemma_expr(env, es.last(), lower_list(env, es.drop_last(), st).1);
    }
}

proof fn lemma_opt_block(env: LowerEnv, b: Option<Block>, st: LowerState)
    requires
        cells(env, st.escaping),
    ensures
        cells(env, lower_opt_block(env, b, st).1.escaping),
    decreases b, 0nat,
{
    if let Some(x) = b {
        lemma_block(env, x, st);
    }
}

proof fn lemma_as_block(env: LowerEnv, e: Expr, st: LowerState)
    requires
        cells(env, st.escaping),
    ensures
        cells(env, lower_as_block(env, e, st).1.escaping),
    decreases e, 4nat,
{
    match e.kind {
        ExprKind::Block(b) => {
            lemma_block(env, b, st);
        },
        _ => lemma_expr(env, e, st),
    }
}

#[verifier::spinoff_prover]
proof fn lemma_leaf(env: LowerEnv, e: Expr, st: LowerState)
    requires
        cells(env, st.escaping),
        e.kind is Literal || e.kind is Path || e.kind is Continue || e.kind is Read || e.kind is Error,
    ensures
        cells(env, lower_expr(env, e, st).1.escaping),
    decreases e, 2nat,
{
}

#[verifier::spinoff_prover]
proof fn lemma_operator(env: LowerEnv, e: Expr, st: LowerState)
    requires
        cells(env, st.escaping),
        e.kind is Bin || e.kind is Range || e.kind is Unary || e.kind is Paren,
    ensures
        cells(env, lower_expr(env, e, st).1.escaping),
    decreases e, 2nat,
{
    match e.kind {
        ExprKind::Bin { lhs, rhs, .. } => {
            lemma_opt(env, lhs, st);
            lemma_opt(env, rhs, lower_opt(env, lhs, st).1);
        },
        ExprKind::Range { start, end, .. } => {
            let span = e.range.pair();
            let s1 = node_ty(env, e, st).1;
            lemma_bound(env, start, span, s1);
            lemma_bound(env, end, span, lower_bound(env, start, span, s1).1);
        },
        ExprKind::Unary { operand, .. } => {
            lemma_opt(env, operand, st);
        },
        ExprKind::Paren(x) => {
            if let Some(b) = x {
                lemma_expr(env, *b, st);
            }
        },
        _ => {},
    }
}

#[verifier::spinoff_prover]
proof fn lemma_flow(env: LowerEnv, e: Expr, st: LowerState)
    requires
        cells(env, st.escaping),
        e.kind is Block || e.kind is While || e.kind is Loop || e.kind is Break || e.kind is Return,
    ensures
        cells(env, lower_expr(env, e, st).1.escaping),
    decreases e, 2nat,
{
    match e.kind {
        ExprKind::Block(b) => {
            lemma_block(env, b, st);
        },
        ExprKind::While { cond, body } => {
            lemma_opt(env, cond, st);
            lemma_opt_block(env, body, lower_opt(env, cond, st).1);
        },
        ExprKind::Loop { body } => {
            lemma_opt_block(env, body, st);
        },
        ExprKind::Break(value) => {
            lemma_value(env, value, st);
        },
        ExprKind::Return(value) => {
            lemma_value(env, value, st);
        },
        _ => {},
    }
}

#[verifier::spinoff_prover]
proof fn lemma_if(env: LowerEnv, e: Expr, st: LowerState)
    requires
        cells(env, st.escaping),
        e.kind is If,
    ensures
        cells(env, lower_expr(env, e, st).1.escaping),
    decreases e, 2nat,
{
    if let ExprKind::If { cond, then_branch, else_branch } = e.kind {
        let s1 = lower_opt(env, cond, st).1;
        let s2 = lower_opt_block(env, then_branch, s1).1;
        lemma_opt(env, cond, st);
        lemma_opt_block(env, then_branch, s1);
        lemma_else(env, else_branch, s2);
    }
}

#[verifier::spinoff_prover]
proof fn lemma_many(env: LowerEnv, e: Expr, st: LowerState)
    requires
        cells(env, st.escaping),
        e.kind is Tuple || e.kind is List || e.kind is Parse,
    ensures
        cells(env, lower_expr(env, e, st).1.escaping),
    decreases e, 2nat,
{
    match e.kind {
        ExprKind::Tuple(es) => {
            lemma_list(env, es@, st);
        },
        ExprKind::List(es) => {
            lemma_list(env, es@, st);
        },
        ExprKind::Parse { text, parser } => {
            lemma_opt(env, text, st);
        },
        _ => {},
    }
}

#[verifier::spinoff_prover]
proof fn lemma_access(env: LowerEnv, e: Expr, st: LowerState)
    requires
        cells(env, st.escaping),
        e.kind is FieldGet || e.kind is TupleIndex,
    ensures
        cells(env, lower_expr(env, e, st).1.escaping),
    decreases e, 2nat,
{
    match e.kind {
        ExprKind::FieldGet { .. } => lemma_field_place(env, e, st),
        ExprKind::TupleIndex { receiver, .. } => {
            if let Some(r) = receiver {
                lemma_expr(env, *r, st);
            }
        },
        _ => {},
    }
}

#[verifier::spinoff_prover]
proof fn lemma_expr(env: LowerEnv, e: Expr, st: LowerState)
    requires
        cells(env, st.escaping),
    ensures
        cells(env, lower_expr(env, e, st).1.escaping),
    decreases e, 3nat,
{
    match e.kind {
        ExprKind::Literal(_)
        | ExprKind::Path(_)
        | ExprKind::Continue
        | ExprKind::Read(_)
        | ExprKind::Error => lemma_leaf(env, e, st),
        ExprKind::Bin { .. }
        | ExprKind::Range { .. }
        | ExprKind::Unary { .. }
        | ExprKind::Paren(_) => lemma_operator(env, e, st),
        ExprKind::Block(_)
        | ExprKind::While { .. }
        | ExprKind::Loop { .. }
        | ExprKind::Break(_)
        | ExprKind::Return(_) => lemma_flow(env, e, st),
        ExprKind::If { .. } => lemma_if(env, e, st),
        ExprKind::Tuple(_)
        | ExprKind::List(_)
        | ExprKind::Parse { .. } => lemma_many(env, e, st),
        ExprKind::FieldGet { .. }
        | ExprKind::TupleIndex { .. } => lemma_access(env, e, st),
        ExprKind::Interp(_) => lemma_interp(env, e, st),
        ExprKind::For { .. } => lemma_for(env, e, st),
        ExprKind::Call { .. } => lemma_call(env, e, st),
        ExprKind::MethodCall { .. } => lemma_method_call(env, e, st),
        ExprKind::RecordLit { .. } => lemma_record_lit(env, e, st),
        ExprKind::Index { .. } => lemma_index(env, e, st),
        ExprKind::Match { .. } => lemma_match(env, e, st),
        ExprKind::Closure { .. } => lemma_closure(env, e, st),
    }
}

proof fn lemma_parts(env: LowerEnv, ps: Seq<InterpPart>, st: LowerState)
    requires
        cells(env, st.escaping),
    ensures
        cells(env, lower_parts(env, ps, st).3.escaping),
    decreases ps, 0nat,
{
    if ps.len() > 0 {
        lemma_parts(env, ps.drop_last(), st);
        if let InterpPart::Hole(e) = ps.last() {
            lemma_expr(env, e, lower_parts(env, ps.drop_last(), st).3);
        }
    }
}

proof fn lemma_interp(env: LowerEnv, e: Expr, st: LowerState)
    requires
        cells(env, st.escaping),
    ensures
        cells(env, lower_interp(env, e, st).1.escaping),
    decreases e, 1nat,
{
    if let ExprKind::Interp(parts) = e.kind {
        lemma_parts(env, parts@, node_ty(env, e, st).1);
    }
}

proof fn lemma_for(env: LowerEnv, e: Expr, st: LowerState)
    requires
        cells(env, st.escaping),
    ensures
        cells(env, lower_for(env, e, st).1.escaping),
    decreases e, 1nat,
{
    if let ExprKind::For { binding, iter, body } = e.kind {
        let s1 = lower_opt(env, iter, st).1;
        let s2 = lower_opt_block(env, body, s1).1;
        lemma_opt(env, iter, st);
        lemma_opt_block(env, body, s1);
    }
}

proof fn lemma_call(env: LowerEnv, e: Expr, st: LowerState)
    requires
        cells(env, st.escaping),
    ensures
        cells(env, lower_call(env, e, st).1.escaping),
    decreases e, 1nat,
{
    if let ExprKind::Call { callee, callee_expr, args, .. } = e.kind {
        if callee is None {
            lemma_value(env, callee_expr, st);
            lemma_list(env, args@, lower_value(env, callee_expr, st).1);
        } else {
            lemma_list(env, args@, st);
        }
    }
}

proof fn lemma_method_call(env: LowerEnv, e: Expr, st: LowerState)
    requires
        cells(env, st.escaping),
    ensures
        cells(env, lower_method_call(env, e, st).1.escaping),
    decreases e, 1nat,
{
    if let ExprKind::MethodCall { receiver, name, args } = e.kind {
        lemma_bound(env, receiver, e.range.pair(), st);
        lemma_list(env, args@, lower_bound(env, receiver, e.range.pair(), st).1);
    }
}

proof fn lemma_index(env: LowerEnv, e: Expr, st: LowerState)
    requires
        cells(env, st.escaping),
    ensures
        cells(env, lower_index(env, e, st).1.escaping),
    decreases e, 1nat,
{
    if let ExprKind::Index { receiver, indices } = e.kind {
        if let Some(b) = receiver {
            lemma_expr(env, *b, st);
            lemma_list(env, indices@, lower_expr(env, *b, st).1);
        }
    }
}

proof fn lemma_fields(env: LowerEnv, fields: Seq<FieldInit>, ty: Type, st: LowerState)
    requires
        cells(env, st.escaping),
    ensures
        cells(env, lower_fields(env, fields, ty, st).1.escaping),
    decreases fields, 0nat,
{
    if fields.len() > 0 {
        lemma_fields(env, fields.drop_last(), ty, st);
        if let Some(e) = fields.last().expr {
            lemma_expr(env, *e, lower_fields(env, fields.drop_last(), ty, st).1);
        }
    }
}

proof fn lemma_record_lit(env: LowerEnv, e: Expr, st: LowerState)
    requires
        cells(env, st.escaping),
    ensures
        cells(env, lower_record_lit(env, e, st).1.escaping),
    decreases e, 1nat,
{
    if let ExprKind::RecordLit { fields, .. } = e.kind {
        let (ty, s1) = node_ty(env, e, st);
        lemma_fields(env, fields@, ty, s1);
    }
}

proof fn lemma_field_place(env: LowerEnv, e: Expr, st: LowerState)
    requires
        cells(env, st.escaping),
    ensures
        cells(env, lower_field_place(env, e, st).1.escaping),
    decreases e, 1nat,
{
    if let ExprKind::FieldGet { receiver, .. } = e.kind {
        if let Some(b) = receiver {
            lemma_expr(env, *b, st);
        }
    }
}

proof fn lemma_arms(env: LowerEnv, arms: Seq<MatchArm>, ty: Type, st: LowerState)
    requires
        cells(env, st.escaping),
    ensures
        cells(env, lower_arms(env, arms, ty, st).2.escaping),
    decreases arms, 0nat,
{
    if arms.len() > 0 {
        let arm = arms.last();
        lemma_arms(env, arms.drop_last(), ty, st);
        let before = lower_arms(env, arms.drop_last(), ty, st).2;
        let diags = match arm.pattern {
            Some(pat) => build_spec(env.patterns(), pat, ty, before.diags).1,
            None => before.diags,
        };
        lemma_opt(env, arm.body, LowerState { diags, ..before });
    }
}

proof fn lemma_match(env: LowerEnv, e: Expr, st: LowerState)
    requires
        cells(env, st.escaping),
    ensures
        cells(env, lower_match(env, e, st).1.escaping),
    decreases e, 1nat,
{
    if let ExprKind::Match { scrutinee, arms } = e.kind {
        if let Some(b) = scrutinee {
            let (s, s1) = lower_expr(env, *b, st);
            lemma_expr(env, *b, st);
            lemma_arms(env, arms@, s.ty, s1);
        }
    }
}

proof fn lemma_closure(env: LowerEnv, e: Expr, st: LowerState)
    requires
        cells(env, st.escaping),
    ensures
        cells(env, lower_closure(env, e, st).1.escaping),
    decreases e, 1nat,
{
    if let ExprKind::Closure { params, body } = e.kind {
        let span = e.range.pair();
        let (b, s1) = lower_closure_body(env, body, span, st);
        lemma_closure_body(env, body, span, st);
        let s2 = destructured(env, params@, b, span, s1).1;
        lemma_destructured(env, params@, b, span, s1);
        let caught = match body {
            Some(x) => captures(env, captures_of(*x, e.range, env.refs, env.names)),
            None => Seq::empty(),
        };
        lemma_cells(env, s2.escaping, body, e.range);
    }
}

// ---------------------------------------------------------------------------
// Statements and files
// ---------------------------------------------------------------------------

proof fn lemma_block(env: LowerEnv, b: Block, st: LowerState)
    requires
        cells(env, st.escaping),
    ensures
        cells(env, lower_block(env, b, st).1.escaping),
    decreases b, 0nat,
{
    lemma_stmts(env, b.stmts@, st);
}

proof fn lemma_stmts(env: LowerEnv, stmts: Seq<Stmt>, st: LowerState)
    requires
        cells(env, st.escaping),
    ensures
        cells(env, lower_stmts(env, stmts, st).2.escaping),
    decreases stmts, 0nat,
{
    if stmts.len() > 0 {
        lemma_stmts(env, stmts.drop_last(), st);
        let before = lower_stmts(env, stmts.drop_last(), st).2;
        lemma_stmt(env, stmts.last(), before);
        if let StmtKind::Expr(Some(e)) = stmts.last().kind {
            lemma_expr(env, *e, before);
        }
    }
}

proof fn lemma_effect(env: LowerEnv, e: Option<Box<Expr>>, st: LowerState)
    requires
        cells(env, st.escaping),
    ensures
        cells(env, lower_effect(env, e, st).1.escaping),
    decreases e, 0nat,
{
    if let Some(b) = e {
        lemma_expr(env, *b, st);
    }
}

/// What a binding leaves behind is what its initializer does, if it is lowered.
#[verifier::spinoff_prover]
proof fn lemma_var_state(env: LowerEnv, s: Stmt, init: Option<Box<Expr>>, st: LowerState)
    requires
        s.kind matches StmtKind::Var { init: i, .. } && i == init,
    ensures
        lower_var(env, s, st).1 == st || lower_var(env, s, st).1 == lower_effect(env, init, st).1,
{
    match init {
        None => {},
        Some(e) => {
            let (t, after) = lower_expr(env, *e, st);
            assert(lower_effect(env, init, st).1 == after);
        },
    }
}

#[verifier::spinoff_prover]
proof fn lemma_var(env: LowerEnv, s: Stmt, st: LowerState)
    requires
        cells(env, st.escaping),
        s.kind is Var,
    ensures
        cells(env, lower_var(env, s, st).1.escaping),
    decreases s, 2nat,
{
    if let StmtKind::Var { init, .. } = s.kind {
        lemma_effect(env, init, st);
        lemma_var_state(env, s, init, st);
    }
}

#[verifier::spinoff_prover]
proof fn lemma_assign(env: LowerEnv, s: Stmt, st: LowerState)
    requires
        cells(env, st.escaping),
        s.kind is Assign,
    ensures
        cells(env, lower_assign(env, s, st).1.escaping),
    decreases s, 2nat,
{
    if let StmtKind::Assign { name, value, .. } = s.kind {
        if let Some(e) = value {
            lemma_expr(env, *e, st);
        }
    }
}

#[verifier::spinoff_prover]
proof fn lemma_stmt(env: LowerEnv, s: Stmt, st: LowerState)
    requires
        cells(env, st.escaping),
    ensures
        cells(env, lower_stmt(env, s, st).1.escaping),
    decreases s, 3nat,
{
    match s.kind {
        StmtKind::Var { .. } => lemma_var(env, s, st),
        StmtKind::Assign { .. } => lemma_assign(env, s, st),
        StmtKind::PlaceAssign(store) => lemma_place_assign(env, store, s.range.pair(), st),
        StmtKind::Expr(e) => lemma_effect(env, e, st),
        StmtKind::Other => {},
    }
}

#[verifier::spinoff_prover]
proof fn lemma_place_assign(env: LowerEnv, s: Store, span: (u32, u32), st: LowerState)
    requires
        cells(env, st.escaping),
    ensures
        cells(env, lower_place_assign(env, s, span, st).1.escaping),
    decreases s, 2nat,
{
    if let Some(t) = s.target {
        match t.kind {
            ExprKind::Index { .. } => lemma_index_assign(env, s, span, st),
            ExprKind::FieldGet { .. } => lemma_field_assign(env, s, span, st),
            _ => {},
        }
    }
}

#[verifier::spinoff_prover]
proof fn lemma_index_value(env: LowerEnv, s: Store, range: Span, place: Tree, span: (u32, u32), st: LowerState)
    requires
        cells(env, st.escaping),
    ensures
        cells(env, lower_index_value(env, s, range, place, span, st).1.escaping),
    decreases s, 0nat,
{
    if let Some(v) = s.value {
        lemma_expr(env, *v, st);
    }
}

#[verifier::spinoff_prover]
proof fn lemma_index_assign(env: LowerEnv, s: Store, span: (u32, u32), st: LowerState)
    requires
        cells(env, st.escaping),
    ensures
        cells(env, lower_index_assign(env, s, span, st).1.escaping),
    decreases s, 1nat,
{
    if let Some(t) = s.target {
        lemma_subscript(env, *t, st);
        let (place, s1) = lower_subscript(env, *t, st);
        lemma_index_value(env, s, t.range, place, span, s1);
    }
}

#[verifier::spinoff_prover]
proof fn lemma_field_assign(env: LowerEnv, s: Store, span: (u32, u32), st: LowerState)
    requires
        cells(env, st.escaping),
    ensures
        cells(env, lower_field_assign(env, s, span, st).1.escaping),
    decreases s, 0nat,
{
    if let Some(t) = s.target {
        lemma_field_place(env, *t, st);
        let s1 = lower_field_place(env, *t, st).1;
        if let Some(v) = s.value {
            lemma_expr(env, *v, s1);
        }
    }
}

proof fn lemma_subscript(env: LowerEnv, e: Expr, st: LowerState)
    requires
        cells(env, st.escaping),
    ensures
        cells(env, lower_subscript(env, e, st).1.escaping),
    decreases e, 1nat,
{
    if let ExprKind::Index { receiver, indices } = e.kind {
        lemma_opt(env, receiver, st);
        lemma_list(env, indices@, lower_opt(env, receiver, st).1);
    }
}

proof fn lemma_items(env: LowerEnv, items: Seq<TopLevel>, st: LowerState)
    requires
        cells(env, st.escaping),
    ensures
        cells(env, lower_items(env, items, st).2.escaping),
    decreases items.len(),
{
    if items.len() > 0 {
        lemma_items(env, items.drop_last(), st);
        let before = lower_items(env, items.drop_last(), st).2;
        match items.last() {
            TopLevel::Fn(f) => {
                if let Some(b) = f.body {
                    lemma_block(env, b, before);
                }
                assert(cells(env, lower_fn(env, f, before).1.escaping));
            },
            TopLevel::Stmt(s) => lemma_stmt(env, s, before),
            _ => {},
        }
    }
}

// ---------------------------------------------------------------------------
// Laws
// ---------------------------------------------------------------------------

proof fn lemma_reassigned(names: Seq<SymbolView>, i: int)
    requires
        0 <= i < names.len(),
        names[i].reassigned,
    ensures
        reassigned(names).contains(names[i].id),
    decreases names.len(),
{
    let before = reassigned(names.drop_last());
    if i < names.len() - 1 {
        lemma_reassigned(names.drop_last(), i);
        let k = choose|k: int| 0 <= k < before.len() && before[k] == names[i].id;
        assert(reassigned(names)[k] == names[i].id);
    } else {
        assert(reassigned(names)[before.len() as int] == names[i].id);
    }
}

/// What escapes through the closures of a file is what the file reassigns: no
/// binding is held by a cell that nothing writes.
pub proof fn law_what_escapes_is_reassigned(
    env: LowerEnv,
    items: Seq<TopLevel>,
    range: Span,
    symbol: SymbolId,
)
    requires
        ids_agree(env.names),
        lower_module(env, items, range).escaping.contains(symbol),
    ensures
        lower_module(env, items, range).reassigned.contains(symbol),
{
    let st = crate::lower_spec::nothing_yet();
    lemma_items(env, items, st);
    let all = lower_module(env, items, range).escaping;
    let k = choose|k: int| 0 <= k < all.len() && all[k] == symbol;
    assert(lookup(env.names, all[k]) matches Some(x) && x.reassigned);
    assert(env.names[symbol.0 as int].id.0 == symbol.0 as int);
    lemma_reassigned(env.names, symbol.0 as int);
}

} // verus!
