//! Which part of the source each part of a lowered tree comes from.
use vstd::prelude::*;

use crate::analysis::MethodLowering;
use crate::ast::{Expr, ExprKind, FieldInit, MatchArm, Param, Store};
use crate::lower_spec::{
    error_tree, field_assign_tree, insert_field, lower_arms, lower_block, lower_call,
    lower_closure, lower_expr, lower_field_assign, lower_field_place, lower_fields, lower_for,
    lower_interp, lower_list, lower_match, lower_opt, lower_opt_block, lower_params,
    lower_subscript, place_op, store_tree, LowerEnv, LowerState,
};
use crate::pattern::build_spec;
use crate::source::{DiagView, Span};
use crate::symbol::SymbolId;
use crate::tables::at;
use crate::tree::{leaf, AssignOp, Node, ParamView, PatternView, Tree};
use crate::typedb::DbView;
use crate::types::Type;
use crate::value_laws::{field_called, lemma_field_index, lemma_variant_index, variant_called};

verus! {

/// Whether a node is made for the expression itself, whatever is in it.
pub open spec fn makes_a_node(e: Expr) -> bool {
    match e.kind {
        ExprKind::Literal(_) => true,
        ExprKind::Interp(_) => true,
        ExprKind::Path(_) => true,
        ExprKind::Bin { .. } => true,
        ExprKind::Range { .. } => true,
        ExprKind::Unary { .. } => true,
        ExprKind::If { .. } => true,
        ExprKind::While { .. } => true,
        ExprKind::For { .. } => true,
        ExprKind::Loop { .. } => true,
        ExprKind::Break(_) => true,
        ExprKind::Continue => true,
        ExprKind::Return(_) => true,
        ExprKind::Call { .. } => true,
        ExprKind::Tuple(_) => true,
        ExprKind::List(_) => true,
        ExprKind::Closure { .. } => true,
        _ => false,
    }
}

/// A lowered expression stands where the source has it, and has the type that was
/// inferred for it, resolved.
pub proof fn law_nodes_keep_place_and_type(env: LowerEnv, e: Expr, st: LowerState, t: Type)
    requires
        makes_a_node(e),
        at(env.expr_types, e.spec_key()) == Some(t),
    ensures
        lower_expr(env, e, st).0.span == e.range.pair(),
        lower_expr(env, e, st).0.ty == env.db.resolve(t),
{
    match e.kind {
        ExprKind::Interp(_) => {
            assert(lower_expr(env, e, st) == lower_interp(env, e, st));
        },
        ExprKind::For { .. } => {
            assert(lower_expr(env, e, st) == lower_for(env, e, st));
        },
        ExprKind::Call { .. } => {
            assert(lower_expr(env, e, st) == lower_call(env, e, st));
        },
        ExprKind::Closure { .. } => {
            assert(lower_expr(env, e, st) == lower_closure(env, e, st));
        },
        _ => {},
    }
}

/// Whether a tree is an expression, lowered.
pub open spec fn is_lowered(env: LowerEnv, e: Expr, t: Tree) -> bool {
    exists|st: LowerState| t == (#[trigger] lower_expr(env, e, st)).0
}

/// A `match` has one pattern and one body for each arm, in the order of the
/// source: the pattern is the arm's, built for the type of what is matched on, and
/// the body is the arm's, lowered. What is matched on comes first.
pub proof fn law_arms_keep_their_places(env: LowerEnv, e: Expr, st: LowerState)
    ensures
        e.kind matches ExprKind::Match { scrutinee: Some(s), arms } ==> {
            let t = lower_expr(env, e, st).0;
            &&& t.node matches Node::Match(ps)
            &&& ps.len() == arms@.len()
            &&& t.kids.len() == arms@.len() + 1
            &&& t.kids[0] == lower_expr(env, *s, st).0
            &&& forall|i: int|
                0 <= i < arms@.len() ==> arm_in_place(
                    env,
                    #[trigger] arms@[i],
                    t.kids[0].ty,
                    ps[i],
                    t.kids[i + 1],
                )
        },
{
    if let ExprKind::Match { scrutinee: Some(s), arms } = e.kind {
        assert(lower_expr(env, e, st) == lower_match(env, e, st));
        let (x, s1) = lower_expr(env, *s, st);
        lemma_arms(env, arms@, x.ty, s1);
    }
}

/// Whether a pattern and a body are those of an arm.
pub open spec fn arm_in_place(
    env: LowerEnv,
    arm: MatchArm,
    ty: Type,
    p: PatternView,
    body: Tree,
) -> bool {
    &&& match arm.pattern {
        Some(pat) => exists|ds: Seq<DiagView>|
            p == (#[trigger] build_spec(env.patterns(), pat, ty, ds)).0,
        None => p == PatternView::Wildcard,
    }
    &&& match arm.body {
        Some(b) => is_lowered(env, *b, body),
        None => body == error_tree(),
    }
}

proof fn lemma_arms(env: LowerEnv, arms: Seq<MatchArm>, ty: Type, st: LowerState)
    ensures
        lower_arms(env, arms, ty, st).0.len() == arms.len(),
        lower_arms(env, arms, ty, st).1.len() == arms.len(),
        forall|i: int|
            0 <= i < arms.len() ==> arm_in_place(
                env,
                #[trigger] arms[i],
                ty,
                lower_arms(env, arms, ty, st).0[i],
                lower_arms(env, arms, ty, st).1[i],
            ),
    decreases arms.len(),
{
    if arms.len() > 0 {
        let (ps, ts, before) = lower_arms(env, arms.drop_last(), ty, st);
        lemma_arms(env, arms.drop_last(), ty, st);
        let arm = arms.last();
        let (p, diags) = match arm.pattern {
            Some(pat) => build_spec(env.patterns(), pat, ty, before.diags),
            None => (PatternView::Wildcard, before.diags),
        };
        let s1 = LowerState { diags, ..before };
        if let Some(b) = arm.body {
            assert(lower_opt(env, arm.body, s1) == lower_expr(env, *b, s1));
            assert(is_lowered(env, *b, lower_expr(env, *b, s1).0));
        }
        assert(arm_in_place(env, arm, ty, p, lower_opt(env, arm.body, s1).0));
        assert forall|i: int| 0 <= i < arms.len() implies arm_in_place(
            env,
            #[trigger] arms[i],
            ty,
            lower_arms(env, arms, ty, st).0[i],
            lower_arms(env, arms, ty, st).1[i],
        ) by {
            if i < arms.len() - 1 {
                assert(arms.drop_last()[i] == arms[i]);
            }
        }
    }
}

/// A `for` walks what stands after `in`, binds each item by the pattern before it,
/// and runs its body.
pub proof fn law_walks_keep_their_parts(env: LowerEnv, e: Expr, st: LowerState)
    ensures
        e.kind matches ExprKind::For { binding: Some(p), iter: Some(x), body: Some(b) } ==> {
            let t = lower_expr(env, e, st).0;
            &&& t.node matches Node::For(pattern, item)
            &&& t.kids.len() == 2
            &&& t.kids[0] == lower_expr(env, *x, st).0
            &&& exists|s: LowerState|
                t.kids[1] == (#[trigger] lower_block(env, b, s)).0
            &&& exists|ds: Seq<DiagView>|
                pattern == (#[trigger] build_spec(env.patterns(), p, item, ds)).0
            &&& at(env.ref_types, p.range) matches Some(r) ==> item == env.db.resolve(r)
        },
{
    if let ExprKind::For { binding: Some(p), iter: Some(x), body: Some(b) } = e.kind {
        assert(lower_expr(env, e, st) == lower_for(env, e, st));
        let (i, s1) = lower_expr(env, *x, st);
        assert(lower_opt(env, Some(x), st) == lower_expr(env, *x, st));
        let (body, s2) = lower_block(env, b, s1);
        assert(lower_opt_block(env, Some(b), s1) == (body, s2));
    }
}

/// Whether every record's fields can be numbered.
pub open spec fn fields_numbered(db: DbView) -> bool {
    forall|d: int| 0 <= d < db.records.len() ==> (#[trigger] db.records[d]).fields.len() <= u32::MAX
}

/// A field is read from the slot of the field that has the name, of the record
/// that stands before the dot.
pub proof fn law_fields_are_read_from_their_slots(env: LowerEnv, e: Expr, st: LowerState)
    requires
        fields_numbered(env.db),
    ensures
        e.kind matches ExprKind::FieldGet { receiver: Some(r), name: Some(n) } ==> {
            let x = lower_expr(env, *r, st).0;
            let t = lower_expr(env, e, st).0;
            env.db.resolve(x.ty) matches Type::Record(d, _) ==> match t.node {
                Node::FieldGet(i) => t.kids == seq![x] && field_called(
                    env.db,
                    d,
                    i as nat,
                    n.text@,
                ),
                _ => forall|i: nat| !#[trigger] field_called(env.db, d, i, n.text@),
            }
        },
{
    if let ExprKind::FieldGet { receiver: Some(r), name: Some(n) } = e.kind {
        let x = lower_expr(env, *r, st).0;
        if let Type::Record(d, _) = env.db.resolve(x.ty) {
            lemma_field_index(env.db, d, n.text@);
            if let Some(i) = env.db.field_index(d, n.text@) {
                assert(env.db.records[d.0 as int].fields.len() <= u32::MAX);
                assert(lower_field_place(env, e, st).0 == Some((x, i as u32)));
            } else {
                assert(lower_field_place(env, e, st).0 is None);
            }
        }
    }
}

/// Each value that a record literal gives stands under the slot of the field it is
/// given for.
pub proof fn law_record_values_keep_their_fields(
    env: LowerEnv,
    fields: Seq<FieldInit>,
    ty: Type,
    st: LowerState,
    k: int,
)
    requires
        0 <= k < fields.len(),
        ty is Record,
        fields[k].name is Some,
        fields[k].expr is Some,
        env.db.field_index(ty->Record_0, fields[k].name->0.text@) is Some,
    ensures
        exists|t: Tree|
            is_lowered(env, *fields[k].expr->0, t) && #[trigger] lower_fields(
                env,
                fields,
                ty,
                st,
            ).0.contains(
                (
                    env.db.field_index(ty->Record_0, fields[k].name->0.text@)->0 as u32,
                    t,
                ),
            ),
    decreases fields.len(),
{
    let (fs, before) = lower_fields(env, fields.drop_last(), ty, st);
    let all = lower_fields(env, fields, ty, st).0;
    if k == fields.len() - 1 {
        let e = fields[k].expr->0;
        let i = env.db.field_index(ty->Record_0, fields[k].name->0.text@)->0 as u32;
        let t = lower_expr(env, *e, before).0;
        assert(is_lowered(env, *e, t));
        lemma_inserted(fs, (i, t), (i, t));
        assert(all.contains((i, t)));
    } else {
        law_record_values_keep_their_fields(env, fields.drop_last(), ty, st, k);
        let i = env.db.field_index(ty->Record_0, fields[k].name->0.text@)->0 as u32;
        let t = choose|t: Tree|
            is_lowered(env, *fields.drop_last()[k].expr->0, t) && #[trigger] fs.contains((i, t));
        assert(fs.contains((i, t)));
        let field = fields.last();
        if let Some(name) = field.name {
            if let Some(j) = env.db.field_index(ty->Record_0, name.text@) {
                let x = match field.expr {
                    Some(e) => lower_expr(env, *e, before).0,
                    None => match env.symbol_at(name.range) {
                        Some(symbol) => leaf(
                            Node::Path(symbol),
                            env.symbol_type(symbol),
                            name.range.pair(),
                        ),
                        None => error_tree(),
                    },
                };
                assert(all == insert_field(fs, (j as u32, x)));
                lemma_inserted(fs, (j as u32, x), (i, t));
            }
        }
        assert(all.contains((i, t)));
    }
}

proof fn lemma_inserted(s: Seq<(u32, Tree)>, f: (u32, Tree), g: (u32, Tree))
    requires
        g == f || s.contains(g),
    ensures
        insert_field(s, f).contains(g),
    decreases s.len(),
{
    let r = insert_field(s, f);
    if s.len() == 0 || s.last().0 <= f.0 {
        if g == f {
            assert(r[s.len() as int] == g);
        } else {
            let k = choose|k: int| 0 <= k < s.len() && s[k] == g;
            assert(r[k] == g);
        }
    } else {
        let front = insert_field(s.drop_last(), f);
        if g == s.last() {
            assert(r[front.len() as int] == g);
        } else {
            if g != f {
                let k = choose|k: int| 0 <= k < s.len() && s[k] == g;
                assert(s.drop_last()[k] == g);
            }
            lemma_inserted(s.drop_last(), f, g);
            let k = choose|k: int| 0 <= k < front.len() && front[k] == g;
            assert(r[k] == g);
        }
    }
}

/// The parameters that are declared have their slots in the order of the source,
/// each the symbol declared at it, under its name, with the symbol's type.
pub proof fn law_parameters_keep_their_places(env: LowerEnv, ps: Seq<Param>)
    requires
        forall|i: int|
            0 <= i < ps.len() ==> (#[trigger] ps[i]).name is Some && at(
                env.decls,
                ps[i].name->0.range,
            ) is Some,
    ensures
        lower_params(env, ps).len() == ps.len(),
        forall|i: int|
            0 <= i < ps.len() ==> (#[trigger] lower_params(env, ps)[i]) == (ParamView {
                symbol: at(env.decls, ps[i].name->0.range)->0,
                name: Some(ps[i].name->0.text@),
                ty: env.symbol_type(at(env.decls, ps[i].name->0.range)->0),
            }),
    decreases ps.len(),
{
    if ps.len() > 0 {
        assert forall|i: int| 0 <= i < ps.len() - 1 implies (#[trigger] ps.drop_last()[i]).name is Some
            && at(env.decls, ps.drop_last()[i].name->0.range) is Some by {
            assert(ps.drop_last()[i] == ps[i]);
        }
        law_parameters_keep_their_places(env, ps.drop_last());
        assert(ps.last() == ps[ps.len() - 1]);
        assert forall|i: int| 0 <= i < ps.len() implies (#[trigger] lower_params(env, ps)[i]) == (
        ParamView {
            symbol: at(env.decls, ps[i].name->0.range)->0,
            name: Some(ps[i].name->0.text@),
            ty: env.symbol_type(at(env.decls, ps[i].name->0.range)->0),
        }) by {
            if i < ps.len() - 1 {
                assert(lower_params(env, ps)[i] == lower_params(env, ps.drop_last())[i]);
                assert(ps.drop_last()[i] == ps[i]);
            }
        }
    }
}

/// The place of a field: the record before the dot, and the slot of the field that
/// has the name.
pub open spec fn is_slot_of(env: LowerEnv, target: Expr, record: Tree, slot: u32, st: LowerState) -> bool {
    match target.kind {
        ExprKind::FieldGet { receiver: Some(r), name: Some(n) } => {
            &&& record == lower_expr(env, *r, st).0
            &&& env.db.resolve(record.ty) matches Type::Record(d, _)
            &&& field_called(env.db, d, slot as nat, n.text@)
        },
        _ => false,
    }
}

/// What a dot and a name stand for is the slot of the field that has the name, of
/// the record before the dot.
pub proof fn law_field_places_are_slots(env: LowerEnv, target: Expr, st: LowerState)
    requires
        fields_numbered(env.db),
    ensures
        lower_field_place(env, target, st).0 matches Some(p) ==> is_slot_of(
            env,
            target,
            p.0,
            p.1,
            st,
        ),
{
    if let ExprKind::FieldGet { receiver: Some(r), name: Some(n) } = target.kind {
        let x = lower_expr(env, *r, st).0;
        if let Type::Record(d, _) = env.db.resolve(x.ty) {
            lemma_field_index(env.db, d, n.text@);
            if let Some(i) = env.db.field_index(d, n.text@) {
                assert(env.db.records[d.0 as int].fields.len() <= u32::MAX);
            }
        }
    }
}

/// A store to a field writes the place on the left with the value on the right.
pub proof fn law_field_stores_keep_their_parts(
    env: LowerEnv,
    s: Store,
    target: Expr,
    value: Expr,
    span: (u32, u32),
    st: LowerState,
)
    requires
        s.target == Some(Box::new(target)),
        s.value == Some(Box::new(value)),
    ensures
        match lower_field_place(env, target, st).0 {
            Some(p) => exists|x: Tree|
                lower_field_assign(env, s, span, st).0 == Some(
                    #[trigger] field_assign_tree(p.0, p.1, place_op(s.op), x, span),
                ) && is_lowered(env, value, x),
            None => lower_field_assign(env, s, span, st).0 is None,
        },
{
    let (place, s1) = lower_field_place(env, target, st);
    if let Some(p) = place {
        let x = lower_expr(env, value, s1).0;
        assert(is_lowered(env, value, x));
        assert(lower_field_assign(env, s, span, st).0 == Some(
            field_assign_tree(p.0, p.1, place_op(s.op), x, span),
        ));
    }
}

/// A symbol that stands for a variant constructs the variant of its own name.
pub proof fn law_variants_are_found_by_name(env: LowerEnv, symbol: SymbolId)
    ensures
        env.variant_of(symbol) matches Some(p) ==> variant_called(
            env.db,
            p.0,
            p.1,
            env.symbol_name(symbol),
        ),
{
    if let Some(p) = env.variant_of(symbol) {
        lemma_variant_index(env.db, p.0, env.symbol_name(symbol));
    }
}

/// A call by name calls the symbol that the name refers to, under that name, with
/// the types that were inferred at the call.
pub proof fn law_calls_keep_their_target(env: LowerEnv, e: Expr, st: LowerState)
    ensures
        e.kind matches ExprKind::Call { callee: Some(n), args, .. } ==> {
            let t = lower_expr(env, e, st).0;
            let s = env.symbol_at(n.range);
            s is Some && env.variant_of(s->0) is None ==> {
                &&& t.node matches Node::Call(target, name, types, by_value)
                &&& target == s->0
                &&& name == n.text@
                &&& !by_value
                &&& at(env.call_sites, n.range) matches Some(site) ==> types
                    == site.arg_types.seq().map_values(|x: Type| env.db.resolve(x))
            }
        },
{
    if let ExprKind::Call { callee: Some(n), .. } = e.kind {
        assert(lower_expr(env, e, st) == lower_call(env, e, st));
    }
}

/// A store through a subscript is carried out by the routine of its row, on what
/// is subscripted, then the indices, then the value; the old value is read first
/// exactly where an operator applies to it.
pub proof fn law_subscript_stores_keep_their_parts(
    env: LowerEnv,
    range: Span,
    place: Tree,
    op: AssignOp,
    value: Tree,
    span: (u32, u32),
)
    ensures
        match store_tree(env, range, place, op, value, span) {
            Some(t) => {
                &&& t.node matches Node::IndexAssign(get, put, how)
                &&& how == op
                &&& get is Some <==> op != AssignOp::Assign
                &&& at(env.method_refs, range) is Some
                &&& at(env.method_refs, range)->0.entry.lowering == MethodLowering::RuntimeSymbol(put)
                &&& t.kids.len() == place.kids.len() + 1
                &&& t.kids.drop_last() == place.kids
                &&& t.kids.last() == value
            },
            None => true,
        },
{
    assert(place.kids.push(value).drop_last() =~= place.kids);
}

/// What a store through a subscript writes to: what stands before the brackets,
/// and then each index in its order.
pub proof fn law_subscripts_keep_their_order(env: LowerEnv, e: Expr, st: LowerState)
    ensures
        e.kind matches ExprKind::Index { receiver: Some(r), indices } ==> {
            let (x, s1) = lower_expr(env, *r, st);
            lower_subscript(env, e, st).0.kids == seq![x] + lower_list(env, indices@, s1).0
        },
{
    if let ExprKind::Index { receiver: Some(r), .. } = e.kind {
        assert(lower_opt(env, Some(r), st) == lower_expr(env, *r, st));
    }
}

/// Lists keep their order: each element is lowered in its place.
pub proof fn law_lists_keep_their_order(env: LowerEnv, es: Seq<Expr>, st: LowerState, i: int)
    requires
        0 <= i < es.len(),
    ensures
        lower_list(env, es, st).0.len() == es.len(),
        is_lowered(env, es[i], lower_list(env, es, st).0[i]),
    decreases es.len(),
{
    let (ts, before) = lower_list(env, es.drop_last(), st);
    if es.len() > 1 {
        law_lists_keep_their_order(
            env,
            es.drop_last(),
            st,
            if i < es.len() - 1 {
                i
            } else {
                0
            },
        );
    }
    if i == es.len() - 1 {
        assert(is_lowered(env, es[i], lower_expr(env, es[i], before).0));
    }
}

} // verus!
