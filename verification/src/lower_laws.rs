//! What lowering needs of analysis, and what it then never reports.
use vstd::prelude::*;

use crate::ast::{
    Block, Expr, ExprKind, FieldInit, FieldPattern, InterpPart, MatchArm, Param, ParserBody,
    Pattern, PatternKind, Stmt, StmtKind, Store, TopLevel,
};
use crate::descend::{
    arm_descendants, boxed_descendants, expr_descendants, field_descendants, file_descendants,
    list_descendants, one_stmt_descendants, opt_block_descendants, part_descendants,
    stmt_descendants, Visit,
};
use crate::lower_spec::{
    destructured, destructured_one, lower_arms, lower_as_block, lower_assign, lower_block,
    lower_bound, lower_call, lower_closure, lower_closure_body, lower_effect, lower_else,
    lower_expr, lower_field_assign, lower_field_place, lower_fields, lower_fn, lower_for,
    lower_index, lower_index_assign, lower_index_value, lower_interp, lower_items, lower_list,
    lower_match, lower_method_call, lower_module, lower_opt, lower_opt_block, lower_parts,
    lower_place_assign, lower_record_lit, lower_stmt, lower_stmts, lower_subscript, lower_value,
    lower_var, LowerEnv, LowerState,
};
use crate::pattern::{build_fields, build_spec, build_subs, component, padded, PatternEnv};
use crate::source::{diag_views, DiagCode, DiagView, Span};
use crate::tree::{PatternView, Tree};
use crate::types::{RecordDefId, Type, TypeList};

verus! {

/// Whether no report says that a type is missing.
pub open spec fn calm(ds: Seq<DiagView>) -> bool {
    forall|i: int| 0 <= i < ds.len() ==> (#[trigger] ds[i]).code != DiagCode::InternalMissingType
}

/// Whether the reports on a parser expression are about the parser.
pub open spec fn calm_parser(p: Option<ParserBody>) -> bool {
    match p {
        Some(b) => calm(diag_views(b.plan_reports@)),
        None => true,
    }
}

/// Whether an expression has a type recorded, and its parser nothing but
/// reports of its own.
pub open spec fn ready_expr(env: LowerEnv, e: Expr) -> bool {
    env.expr_types.dom().contains(e.spec_key()) && match e.kind {
        ExprKind::Read(p) => calm_parser(p),
        ExprKind::Parse { parser, .. } => calm_parser(parser),
        _ => true,
    }
}

/// The same, of every expression among the visits.
pub open spec fn ready(env: LowerEnv, vs: Seq<Visit>) -> bool {
    forall|i: int| 0 <= i < vs.len() ==> ((#[trigger] vs[i]) matches Visit::Expr(e) ==> ready_expr(env, e))
}

proof fn lemma_split(env: LowerEnv, a: Seq<Visit>, b: Seq<Visit>)
    requires
        ready(env, a + b),
    ensures
        ready(env, a),
        ready(env, b),
{
    assert forall|i: int| 0 <= i < a.len() implies ((#[trigger] a[i]) matches Visit::Expr(e)
        ==> ready_expr(env, e)) by {
        assert((a + b)[i] == a[i]);
    }
    assert forall|i: int| 0 <= i < b.len() implies ((#[trigger] b[i]) matches Visit::Expr(e)
        ==> ready_expr(env, e)) by {
        assert((a + b)[i + a.len()] == b[i]);
    }
}

proof fn lemma_calm_append(a: Seq<DiagView>, b: Seq<DiagView>)
    requires
        calm(a),
        calm(b),
    ensures
        calm(a + b),
{
    assert forall|i: int| 0 <= i < (a + b).len() implies (#[trigger] (a + b)[i]).code
        != DiagCode::InternalMissingType by {
        if i < a.len() {
            assert((a + b)[i] == a[i]);
        } else {
            assert((a + b)[i] == b[i - a.len()]);
        }
    }
}

// ---------------------------------------------------------------------------
// Patterns
// ---------------------------------------------------------------------------

proof fn lemma_build(env: PatternEnv, pat: Pattern, ty: Type, diags: Seq<DiagView>)
    requires
        calm(diags),
    ensures
        calm(build_spec(env, pat, ty, diags).1),
    decreases pat,
{
    let resolved = env.db.resolve(ty);
    match pat.kind {
        PatternKind::Variant(name, subs) => {
            if let Type::Enum(def, args) = resolved {
                if let Some(i) = env.db.variant_index(def, name.text@) {
                    lemma_subs(env, subs@, env.db.payload_of(def, args, i), ty, diags);
                }
            }
        },
        PatternKind::Tuple(subs) => {
            if let Type::Tuple(els) = resolved {
                lemma_subs(env, subs@, els.seq(), ty, diags);
            }
        },
        PatternKind::Record(_, fields) => {
            if let Type::Record(def, args) = resolved {
                let start = padded(Seq::empty(), env.db.field_count(def));
                lemma_build_fields(env, fields@, def, args, start, diags);
            }
        },
        _ => {},
    }
}

proof fn lemma_subs(
    env: PatternEnv,
    subs: Seq<Pattern>,
    tys: Seq<Type>,
    otherwise: Type,
    diags: Seq<DiagView>,
)
    requires
        calm(diags),
    ensures
        calm(build_subs(env, subs, tys, otherwise, diags).1),
    decreases subs,
{
    if subs.len() > 0 {
        lemma_subs(env, subs.drop_last(), tys, otherwise, diags);
        lemma_build(
            env,
            subs.last(),
            component(tys, subs.len() - 1, otherwise),
            build_subs(env, subs.drop_last(), tys, otherwise, diags).1,
        );
    }
}

proof fn lemma_build_fields(
    env: PatternEnv,
    fields: Seq<FieldPattern>,
    def: RecordDefId,
    args: TypeList,
    start: Seq<PatternView>,
    diags: Seq<DiagView>,
)
    requires
        calm(diags),
    ensures
        calm(build_fields(env, fields, def, args, start, diags).1),
    decreases fields,
{
    if fields.len() > 0 {
        lemma_build_fields(env, fields.drop_last(), def, args, start, diags);
        let field = fields.last();
        if let Some(name) = field.name {
            if let Some(i) = env.db.field_index(def, name.text@) {
                if let Some(sub) = field.pattern {
                    lemma_build(
                        env,
                        sub,
                        env.db.field_type(def, args, i),
                        build_fields(env, fields.drop_last(), def, args, start, diags).1,
                    );
                }
            }
        }
    }
}

proof fn lemma_destructured(
    env: LowerEnv,
    ps: Seq<Param>,
    body: Tree,
    span: (u32, u32),
    st: LowerState,
)
    requires
        calm(st.diags),
    ensures
        calm(destructured(env, ps, body, span, st).1.diags),
    decreases ps.len(),
{
    if ps.len() > 0 {
        let p = ps.last();
        if let Some(pat) = p.pattern {
            if let Some(symbol) = crate::tables::at(env.decls, pat.range) {
                lemma_build(env.patterns(), pat, env.symbol_type(symbol), st.diags);
            }
        }
        let (wrapped, after) = destructured_one(env, p, body, span, st);
        lemma_destructured(env, ps.drop_last(), wrapped, span, after);
    }
}

// ---------------------------------------------------------------------------
// Expressions
// ---------------------------------------------------------------------------

proof fn lemma_opt(env: LowerEnv, e: Option<Box<Expr>>, st: LowerState)
    requires
        calm(st.diags),
        ready(env, boxed_descendants(e)),
    ensures
        calm(lower_opt(env, e, st).1.diags),
    decreases e, 0nat,
{
    if let Some(b) = e {
        lemma_expr(env, *b, st);
    }
}

proof fn lemma_value(env: LowerEnv, e: Option<Box<Expr>>, st: LowerState)
    requires
        calm(st.diags),
        ready(env, boxed_descendants(e)),
    ensures
        calm(lower_value(env, e, st).1.diags),
    decreases e, 0nat,
{
    if let Some(b) = e {
        lemma_expr(env, *b, st);
    }
}

proof fn lemma_bound(env: LowerEnv, e: Option<Box<Expr>>, span: (u32, u32), st: LowerState)
    requires
        calm(st.diags),
        ready(env, boxed_descendants(e)),
    ensures
        calm(lower_bound(env, e, span, st).1.diags),
    decreases e, 0nat,
{
    if let Some(b) = e {
        lemma_expr(env, *b, st);
    }
}

proof fn lemma_else(env: LowerEnv, e: Option<Box<Expr>>, st: LowerState)
    requires
        calm(st.diags),
        ready(env, boxed_descendants(e)),
    ensures
        calm(lower_else(env, e, st).1.diags),
    decreases e, 0nat,
{
    if let Some(b) = e {
        lemma_as_block(env, *b, st);
    }
}

proof fn lemma_closure_body(env: LowerEnv, e: Option<Box<Expr>>, span: (u32, u32), st: LowerState)
    requires
        calm(st.diags),
        ready(env, boxed_descendants(e)),
    ensures
        calm(lower_closure_body(env, e, span, st).1.diags),
    decreases e, 0nat,
{
    if let Some(b) = e {
        lemma_as_block(env, *b, st);
    }
}

proof fn lemma_list(env: LowerEnv, es: Seq<Expr>, st: LowerState)
    requires
        calm(st.diags),
        ready(env, list_descendants(es)),
    ensures
        calm(lower_list(env, es, st).1.diags),
    decreases es, 0nat,
{
    if es.len() > 0 {
        lemma_split(env, list_descendants(es.drop_last()), expr_descendants(es.last()));
        lemma_list(env, es.drop_last(), st);
        lemma_expr(env, es.last(), lower_list(env, es.drop_last(), st).1);
    }
}

proof fn lemma_opt_block(env: LowerEnv, b: Option<Block>, st: LowerState)
    requires
        calm(st.diags),
        ready(env, opt_block_descendants(b)),
    ensures
        calm(lower_opt_block(env, b, st).1.diags),
    decreases b, 0nat,
{
    if let Some(x) = b {
        lemma_block(env, x, st);
    }
}

proof fn lemma_as_block(env: LowerEnv, e: Expr, st: LowerState)
    requires
        calm(st.diags),
        ready(env, expr_descendants(e)),
    ensures
        calm(lower_as_block(env, e, st).1.diags),
    decreases e, 4nat,
{
    lemma_own(env, e);
    match e.kind {
        ExprKind::Block(b) => {
            assert(expr_descendants(e).skip(1) =~= stmt_descendants(b.stmts@));
            lemma_block(env, b, st);
        },
        _ => lemma_expr(env, e, st),
    }
}

/// An expression that is ready has a type, and what is inside it is ready.
proof fn lemma_own(env: LowerEnv, e: Expr)
    requires
        ready(env, expr_descendants(e)),
    ensures
        ready_expr(env, e),
        ready(env, expr_descendants(e).skip(1)),
{
    let all = expr_descendants(e);
    assert(all[0] == Visit::Expr(e));
    assert(all =~= seq![Visit::Expr(e)] + all.skip(1));
    lemma_split(env, seq![Visit::Expr(e)], all.skip(1));
}

#[verifier::spinoff_prover]
proof fn lemma_leaf(env: LowerEnv, e: Expr, st: LowerState)
    requires
        calm(st.diags),
        ready(env, expr_descendants(e)),
        e.kind is Literal || e.kind is Path || e.kind is Continue || e.kind is Read || e.kind is Error,
    ensures
        calm(lower_expr(env, e, st).1.diags),
    decreases e, 2nat,
{
    lemma_own(env, e);
    if let ExprKind::Read(Some(p)) = e.kind {
        lemma_calm_append(st.diags, diag_views(p.plan_reports@));
    }
}

#[verifier::spinoff_prover]
proof fn lemma_operator(env: LowerEnv, e: Expr, st: LowerState)
    requires
        calm(st.diags),
        ready(env, expr_descendants(e)),
        e.kind is Bin || e.kind is Range || e.kind is Unary || e.kind is Paren,
    ensures
        calm(lower_expr(env, e, st).1.diags),
    decreases e, 2nat,
{
    lemma_own(env, e);
    let inner = expr_descendants(e).skip(1);
    match e.kind {
        ExprKind::Bin { lhs, rhs, .. } => {
            assert(inner =~= boxed_descendants(lhs) + boxed_descendants(rhs));
            lemma_split(env, boxed_descendants(lhs), boxed_descendants(rhs));
            lemma_opt(env, lhs, st);
            lemma_opt(env, rhs, lower_opt(env, lhs, st).1);
        },
        ExprKind::Range { start, end, .. } => {
            let span = e.range.pair();
            assert(inner =~= boxed_descendants(start) + boxed_descendants(end));
            lemma_split(env, boxed_descendants(start), boxed_descendants(end));
            lemma_bound(env, start, span, st);
            lemma_bound(env, end, span, lower_bound(env, start, span, st).1);
        },
        ExprKind::Unary { operand, .. } => {
            assert(inner =~= boxed_descendants(operand));
            lemma_opt(env, operand, st);
        },
        ExprKind::Paren(x) => {
            assert(inner =~= boxed_descendants(x));
            if let Some(b) = x {
                lemma_expr(env, *b, st);
            }
        },
        _ => {},
    }
}

#[verifier::spinoff_prover]
proof fn lemma_flow(env: LowerEnv, e: Expr, st: LowerState)
    requires
        calm(st.diags),
        ready(env, expr_descendants(e)),
        e.kind is Block || e.kind is While || e.kind is Loop || e.kind is Break || e.kind is Return,
    ensures
        calm(lower_expr(env, e, st).1.diags),
    decreases e, 2nat,
{
    lemma_own(env, e);
    let inner = expr_descendants(e).skip(1);
    match e.kind {
        ExprKind::Block(b) => {
            assert(inner =~= stmt_descendants(b.stmts@));
            lemma_block(env, b, st);
        },
        ExprKind::While { cond, body } => {
            assert(inner =~= boxed_descendants(cond) + opt_block_descendants(body));
            lemma_split(env, boxed_descendants(cond), opt_block_descendants(body));
            lemma_opt(env, cond, st);
            lemma_opt_block(env, body, lower_opt(env, cond, st).1);
        },
        ExprKind::Loop { body } => {
            assert(inner =~= opt_block_descendants(body));
            lemma_opt_block(env, body, st);
        },
        ExprKind::Break(value) => {
            assert(inner =~= boxed_descendants(value));
            lemma_value(env, value, st);
        },
        ExprKind::Return(value) => {
            assert(inner =~= boxed_descendants(value));
            lemma_value(env, value, st);
        },
        _ => {},
    }
}

#[verifier::spinoff_prover]
proof fn lemma_if(env: LowerEnv, e: Expr, st: LowerState)
    requires
        calm(st.diags),
        ready(env, expr_descendants(e)),
        e.kind is If,
    ensures
        calm(lower_expr(env, e, st).1.diags),
    decreases e, 2nat,
{
    lemma_own(env, e);
    let inner = expr_descendants(e).skip(1);
    if let ExprKind::If { cond, then_branch, else_branch } = e.kind {
        let first = boxed_descendants(cond) + opt_block_descendants(then_branch);
        assert(inner =~= first + boxed_descendants(else_branch));
        lemma_split(env, first, boxed_descendants(else_branch));
        lemma_split(env, boxed_descendants(cond), opt_block_descendants(then_branch));
        let s1 = lower_opt(env, cond, st).1;
        let s2 = lower_opt_block(env, then_branch, s1).1;
        lemma_opt(env, cond, st);
        lemma_opt_block(env, then_branch, s1);
        lemma_else(env, else_branch, s2);
    }
}

#[verifier::spinoff_prover]
proof fn lemma_many(env: LowerEnv, e: Expr, st: LowerState)
    requires
        calm(st.diags),
        ready(env, expr_descendants(e)),
        e.kind is Tuple || e.kind is List || e.kind is Parse,
    ensures
        calm(lower_expr(env, e, st).1.diags),
    decreases e, 2nat,
{
    lemma_own(env, e);
    let inner = expr_descendants(e).skip(1);
    match e.kind {
        ExprKind::Tuple(es) => {
            assert(inner =~= list_descendants(es@));
            lemma_list(env, es@, st);
        },
        ExprKind::List(es) => {
            assert(inner =~= list_descendants(es@));
            lemma_list(env, es@, st);
        },
        ExprKind::Parse { text, parser } => {
            assert(inner =~= boxed_descendants(text));
            lemma_opt(env, text, st);
            if let Some(p) = parser {
                lemma_calm_append(lower_opt(env, text, st).1.diags, diag_views(p.plan_reports@));
            }
        },
        _ => {},
    }
}

#[verifier::spinoff_prover]
proof fn lemma_access(env: LowerEnv, e: Expr, st: LowerState)
    requires
        calm(st.diags),
        ready(env, expr_descendants(e)),
        e.kind is FieldGet || e.kind is TupleIndex,
    ensures
        calm(lower_expr(env, e, st).1.diags),
    decreases e, 2nat,
{
    lemma_own(env, e);
    let inner = expr_descendants(e).skip(1);
    match e.kind {
        ExprKind::FieldGet { .. } => lemma_field_place(env, e, st),
        ExprKind::TupleIndex { receiver, .. } => {
            assert(inner =~= boxed_descendants(receiver));
            if let Some(r) = receiver {
                lemma_expr(env, *r, st);
            }
        },
        _ => {},
    }
}

#[verifier::spinoff_prover]
proof fn lemma_expr(env: LowerEnv, e: Expr, st: LowerState)
    requires
        calm(st.diags),
        ready(env, expr_descendants(e)),
    ensures
        calm(lower_expr(env, e, st).1.diags),
    decreases e, 3nat,
{
    match e.kind {
        ExprKind::Literal(_)
        | ExprKind::Path(_)
        | ExprKind::Continue
        | ExprKind::Read(_)
        | ExprKind::Error => lemma_leaf(env, e, st),
        ExprKind::Bin { .. }
        | ExprKind::Range { .. }
        | ExprKind::Unary { .. }
        | ExprKind::Paren(_) => lemma_operator(env, e, st),
        ExprKind::Block(_)
        | ExprKind::While { .. }
        | ExprKind::Loop { .. }
        | ExprKind::Break(_)
        | ExprKind::Return(_) => lemma_flow(env, e, st),
        ExprKind::If { .. } => lemma_if(env, e, st),
        ExprKind::Tuple(_)
        | ExprKind::List(_)
        | ExprKind::Parse { .. } => lemma_many(env, e, st),
        ExprKind::FieldGet { .. }
        | ExprKind::TupleIndex { .. } => lemma_access(env, e, st),
        ExprKind::Interp(_) => lemma_interp(env, e, st),
        ExprKind::For { .. } => lemma_for(env, e, st),
        ExprKind::Call { .. } => lemma_call(env, e, st),
        ExprKind::MethodCall { .. } => lemma_method_call(env, e, st),
        ExprKind::RecordLit { .. } => lemma_record_lit(env, e, st),
        ExprKind::Index { .. } => lemma_index(env, e, st),
        ExprKind::Match { .. } => lemma_match(env, e, st),
        ExprKind::Closure { .. } => lemma_closure(env, e, st),
    }
}

proof fn lemma_parts(env: LowerEnv, ps: Seq<InterpPart>, st: LowerState)
    requires
        calm(st.diags),
        ready(env, part_descendants(ps)),
    ensures
        calm(lower_parts(env, ps, st).3.diags),
    decreases ps, 0nat,
{
    if ps.len() > 0 {
        let last = match ps.last() {
            InterpPart::Hole(e) => expr_descendants(e),
            InterpPart::Fragment(_) => Seq::empty(),
        };
        lemma_split(env, part_descendants(ps.drop_last()), last);
        lemma_parts(env, ps.drop_last(), st);
        if let InterpPart::Hole(e) = ps.last() {
            lemma_expr(env, e, lower_parts(env, ps.drop_last(), st).3);
        }
    }
}

proof fn lemma_interp(env: LowerEnv, e: Expr, st: LowerState)
    requires
        calm(st.diags),
        ready(env, expr_descendants(e)),
    ensures
        calm(lower_interp(env, e, st).1.diags),
    decreases e, 1nat,
{
    lemma_own(env, e);
    let inner = expr_descendants(e).skip(1);
    if let ExprKind::Interp(parts) = e.kind {
        assert(inner =~= part_descendants(parts@));
        lemma_parts(env, parts@, st);
    }
}

proof fn lemma_for(env: LowerEnv, e: Expr, st: LowerState)
    requires
        calm(st.diags),
        ready(env, expr_descendants(e)),
    ensures
        calm(lower_for(env, e, st).1.diags),
    decreases e, 1nat,
{
    lemma_own(env, e);
    let inner = expr_descendants(e).skip(1);
    if let ExprKind::For { binding, iter, body } = e.kind {
        assert(inner =~= boxed_descendants(iter) + opt_block_descendants(body));
        lemma_split(env, boxed_descendants(iter), opt_block_descendants(body));
        let s1 = lower_opt(env, iter, st).1;
        let s2 = lower_opt_block(env, body, s1).1;
        lemma_opt(env, iter, st);
        lemma_opt_block(env, body, s1);
        if let Some(p) = binding {
            lemma_build(env.patterns(), p, crate::lower_spec::item_type(env, e), s2.diags);
        }
    }
}

proof fn lemma_call(env: LowerEnv, e: Expr, st: LowerState)
    requires
        calm(st.diags),
        ready(env, expr_descendants(e)),
    ensures
        calm(lower_call(env, e, st).1.diags),
    decreases e, 1nat,
{
    lemma_own(env, e);
    let inner = expr_descendants(e).skip(1);
    if let ExprKind::Call { callee, callee_expr, args, .. } = e.kind {
        let target = if callee is None {
            boxed_descendants(callee_expr)
        } else {
            Seq::empty()
        };
        assert(inner =~= target + list_descendants(args@));
        lemma_split(env, target, list_descendants(args@));
        if callee is None {
            lemma_value(env, callee_expr, st);
            lemma_list(env, args@, lower_value(env, callee_expr, st).1);
        } else {
            lemma_list(env, args@, st);
        }
    }
}

proof fn lemma_method_call(env: LowerEnv, e: Expr, st: LowerState)
    requires
        calm(st.diags),
        ready(env, expr_descendants(e)),
    ensures
        calm(lower_method_call(env, e, st).1.diags),
    decreases e, 1nat,
{
    lemma_own(env, e);
    let inner = expr_descendants(e).skip(1);
    if let ExprKind::MethodCall { receiver, name, args } = e.kind {
        assert(inner =~= boxed_descendants(receiver) + list_descendants(args@));
        lemma_split(env, boxed_descendants(receiver), list_descendants(args@));
        lemma_bound(env, receiver, e.range.pair(), st);
        lemma_list(env, args@, lower_bound(env, receiver, e.range.pair(), st).1);
    }
}

proof fn lemma_index(env: LowerEnv, e: Expr, st: LowerState)
    requires
        calm(st.diags),
        ready(env, expr_descendants(e)),
    ensures
        calm(lower_index(env, e, st).1.diags),
    decreases e, 1nat,
{
    lemma_own(env, e);
    let inner = expr_descendants(e).skip(1);
    if let ExprKind::Index { receiver, indices } = e.kind {
        assert(inner =~= boxed_descendants(receiver) + list_descendants(indices@));
        lemma_split(env, boxed_descendants(receiver), list_descendants(indices@));
        if let Some(b) = receiver {
            lemma_expr(env, *b, st);
            lemma_list(env, indices@, lower_expr(env, *b, st).1);
        }
    }
}

proof fn lemma_fields(env: LowerEnv, fields: Seq<FieldInit>, ty: Type, st: LowerState)
    requires
        calm(st.diags),
        ready(env, field_descendants(fields)),
    ensures
        calm(lower_fields(env, fields, ty, st).1.diags),
    decreases fields, 0nat,
{
    if fields.len() > 0 {
        lemma_split(
            env,
            field_descendants(fields.drop_last()),
            boxed_descendants(fields.last().expr),
        );
        lemma_fields(env, fields.drop_last(), ty, st);
        if let Some(e) = fields.last().expr {
            lemma_expr(env, *e, lower_fields(env, fields.drop_last(), ty, st).1);
        }
    }
}

proof fn lemma_record_lit(env: LowerEnv, e: Expr, st: LowerState)
    requires
        calm(st.diags),
        ready(env, expr_descendants(e)),
    ensures
        calm(lower_record_lit(env, e, st).1.diags),
    decreases e, 1nat,
{
    lemma_own(env, e);
    let inner = expr_descendants(e).skip(1);
    if let ExprKind::RecordLit { fields, .. } = e.kind {
        assert(inner =~= field_descendants(fields@));
        lemma_fields(env, fields@, crate::lower_spec::node_ty(env, e, st).0, st);
    }
}

proof fn lemma_field_place(env: LowerEnv, e: Expr, st: LowerState)
    requires
        calm(st.diags),
        ready(env, expr_descendants(e)),
    ensures
        calm(lower_field_place(env, e, st).1.diags),
    decreases e, 1nat,
{
    lemma_own(env, e);
    let inner = expr_descendants(e).skip(1);
    if let ExprKind::FieldGet { receiver, .. } = e.kind {
        assert(inner =~= boxed_descendants(receiver));
        if let Some(b) = receiver {
            lemma_expr(env, *b, st);
        }
    }
}

proof fn lemma_arms(env: LowerEnv, arms: Seq<MatchArm>, ty: Type, st: LowerState)
    requires
        calm(st.diags),
        ready(env, arm_descendants(arms)),
    ensures
        calm(lower_arms(env, arms, ty, st).2.diags),
    decreases arms, 0nat,
{
    if arms.len() > 0 {
        let arm = arms.last();
        lemma_split(env, arm_descendants(arms.drop_last()), boxed_descendants(arm.body));
        lemma_arms(env, arms.drop_last(), ty, st);
        let before = lower_arms(env, arms.drop_last(), ty, st).2;
        let diags = match arm.pattern {
            Some(pat) => build_spec(env.patterns(), pat, ty, before.diags).1,
            None => before.diags,
        };
        if let Some(pat) = arm.pattern {
            lemma_build(env.patterns(), pat, ty, before.diags);
        }
        lemma_opt(env, arm.body, LowerState { diags, ..before });
    }
}

proof fn lemma_match(env: LowerEnv, e: Expr, st: LowerState)
    requires
        calm(st.diags),
        ready(env, expr_descendants(e)),
    ensures
        calm(lower_match(env, e, st).1.diags),
    decreases e, 1nat,
{
    lemma_own(env, e);
    let inner = expr_descendants(e).skip(1);
    if let ExprKind::Match { scrutinee, arms } = e.kind {
        assert(inner =~= boxed_descendants(scrutinee) + arm_descendants(arms@));
        lemma_split(env, boxed_descendants(scrutinee), arm_descendants(arms@));
        if let Some(b) = scrutinee {
            let (s, s1) = lower_expr(env, *b, st);
            lemma_expr(env, *b, st);
            lemma_arms(env, arms@, s.ty, s1);
        }
    }
}

proof fn lemma_closure(env: LowerEnv, e: Expr, st: LowerState)
    requires
        calm(st.diags),
        ready(env, expr_descendants(e)),
    ensures
        calm(lower_closure(env, e, st).1.diags),
    decreases e, 1nat,
{
    lemma_own(env, e);
    let inner = expr_descendants(e).skip(1);
    if let ExprKind::Closure { params, body } = e.kind {
        assert(inner =~= boxed_descendants(body));
        let span = e.range.pair();
        let (b, s1) = lower_closure_body(env, body, span, st);
        lemma_closure_body(env, body, span, st);
        lemma_destructured(env, params@, b, span, s1);
    }
}

// ---------------------------------------------------------------------------
// Statements and files
// ---------------------------------------------------------------------------

proof fn lemma_block(env: LowerEnv, b: Block, st: LowerState)
    requires
        calm(st.diags),
        ready(env, stmt_descendants(b.stmts@)),
    ensures
        calm(lower_block(env, b, st).1.diags),
    decreases b, 0nat,
{
    lemma_stmts(env, b.stmts@, st);
}

proof fn lemma_stmts(env: LowerEnv, stmts: Seq<Stmt>, st: LowerState)
    requires
        calm(st.diags),
        ready(env, stmt_descendants(stmts)),
    ensures
        calm(lower_stmts(env, stmts, st).2.diags),
    decreases stmts, 0nat,
{
    if stmts.len() > 0 {
        lemma_split(
            env,
            stmt_descendants(stmts.drop_last()),
            one_stmt_descendants(stmts.last()),
        );
        lemma_stmts(env, stmts.drop_last(), st);
        let before = lower_stmts(env, stmts.drop_last(), st).2;
        lemma_stmt(env, stmts.last(), before);
        if let StmtKind::Expr(Some(e)) = stmts.last().kind {
            lemma_expr(env, *e, before);
        }
    }
}

proof fn lemma_effect(env: LowerEnv, e: Option<Box<Expr>>, st: LowerState)
    requires
        calm(st.diags),
        ready(env, boxed_descendants(e)),
    ensures
        calm(lower_effect(env, e, st).1.diags),
    decreases e, 0nat,
{
    if let Some(b) = e {
        lemma_expr(env, *b, st);
    }
}

/// What a binding leaves behind is what its initializer does, if it is lowered.
#[verifier::spinoff_prover]
proof fn lemma_var_state(env: LowerEnv, s: Stmt, init: Option<Box<Expr>>, st: LowerState)
    requires
        s.kind matches StmtKind::Var { init: i, .. } && i == init,
    ensures
        lower_var(env, s, st).1 == st || lower_var(env, s, st).1 == lower_effect(env, init, st).1,
{
    match init {
        None => {},
        Some(e) => {
            let (t, after) = lower_expr(env, *e, st);
            assert(lower_effect(env, init, st).1 == after);
        },
    }
}

#[verifier::spinoff_prover]
proof fn lemma_var(env: LowerEnv, s: Stmt, st: LowerState)
    requires
        calm(st.diags),
        ready(env, one_stmt_descendants(s)),
        s.kind is Var,
    ensures
        calm(lower_var(env, s, st).1.diags),
    decreases s, 2nat,
{
    if let StmtKind::Var { init, .. } = s.kind {
        lemma_effect(env, init, st);
        lemma_var_state(env, s, init, st);
    }
}

#[verifier::spinoff_prover]
proof fn lemma_assign(env: LowerEnv, s: Stmt, st: LowerState)
    requires
        calm(st.diags),
        ready(env, one_stmt_descendants(s)),
        s.kind is Assign,
    ensures
        calm(lower_assign(env, s, st).1.diags),
    decreases s, 2nat,
{
    if let StmtKind::Assign { name, value, .. } = s.kind {
        let target = match name {
            Some(n) => seq![Visit::Target(n)],
            None => Seq::empty(),
        };
        lemma_split(env, target, boxed_descendants(value));
        if let Some(e) = value {
            lemma_expr(env, *e, st);
        }
    }
}

#[verifier::spinoff_prover]
proof fn lemma_stmt(env: LowerEnv, s: Stmt, st: LowerState)
    requires
        calm(st.diags),
        ready(env, one_stmt_descendants(s)),
    ensures
        calm(lower_stmt(env, s, st).1.diags),
    decreases s, 3nat,
{
    match s.kind {
        StmtKind::Var { .. } => lemma_var(env, s, st),
        StmtKind::Assign { .. } => lemma_assign(env, s, st),
        StmtKind::PlaceAssign(store) => lemma_place_assign(env, store, s.range.pair(), st),
        StmtKind::Expr(e) => lemma_effect(env, e, st),
        StmtKind::Other => {},
    }
}

#[verifier::spinoff_prover]
proof fn lemma_place_assign(env: LowerEnv, s: Store, span: (u32, u32), st: LowerState)
    requires
        calm(st.diags),
        ready(env, boxed_descendants(s.target) + boxed_descendants(s.value)),
    ensures
        calm(lower_place_assign(env, s, span, st).1.diags),
    decreases s, 2nat,
{
    if let Some(t) = s.target {
        match t.kind {
            ExprKind::Index { .. } => lemma_index_assign(env, s, span, st),
            ExprKind::FieldGet { .. } => lemma_field_assign(env, s, span, st),
            _ => {},
        }
    }
}

#[verifier::spinoff_prover]
proof fn lemma_index_value(env: LowerEnv, s: Store, range: Span, place: Tree, span: (u32, u32), st: LowerState)
    requires
        calm(st.diags),
        ready(env, boxed_descendants(s.value)),
    ensures
        calm(lower_index_value(env, s, range, place, span, st).1.diags),
    decreases s, 0nat,
{
    if let Some(v) = s.value {
        lemma_expr(env, *v, st);
    }
}

#[verifier::spinoff_prover]
proof fn lemma_index_assign(env: LowerEnv, s: Store, span: (u32, u32), st: LowerState)
    requires
        calm(st.diags),
        ready(env, boxed_descendants(s.target) + boxed_descendants(s.value)),
    ensures
        calm(lower_index_assign(env, s, span, st).1.diags),
    decreases s, 1nat,
{
    lemma_split(env, boxed_descendants(s.target), boxed_descendants(s.value));
    if let Some(t) = s.target {
        lemma_subscript(env, *t, st);
        let (place, s1) = lower_subscript(env, *t, st);
        lemma_index_value(env, s, t.range, place, span, s1);
    }
}

#[verifier::spinoff_prover]
proof fn lemma_field_assign(env: LowerEnv, s: Store, span: (u32, u32), st: LowerState)
    requires
        calm(st.diags),
        ready(env, boxed_descendants(s.target) + boxed_descendants(s.value)),
    ensures
        calm(lower_field_assign(env, s, span, st).1.diags),
    decreases s, 0nat,
{
    lemma_split(env, boxed_descendants(s.target), boxed_descendants(s.value));
    if let Some(t) = s.target {
        lemma_field_place(env, *t, st);
        let s1 = lower_field_place(env, *t, st).1;
        if let Some(v) = s.value {
            lemma_expr(env, *v, s1);
        }
    }
}

proof fn lemma_subscript(env: LowerEnv, e: Expr, st: LowerState)
    requires
        calm(st.diags),
        ready(env, expr_descendants(e)),
    ensures
        calm(lower_subscript(env, e, st).1.diags),
    decreases e, 1nat,
{
    lemma_own(env, e);
    let inner = expr_descendants(e).skip(1);
    if let ExprKind::Index { receiver, indices } = e.kind {
        assert(inner =~= boxed_descendants(receiver) + list_descendants(indices@));
        lemma_split(env, boxed_descendants(receiver), list_descendants(indices@));
        lemma_opt(env, receiver, st);
        lemma_list(env, indices@, lower_opt(env, receiver, st).1);
    }
}

proof fn lemma_items(env: LowerEnv, items: Seq<TopLevel>, st: LowerState)
    requires
        calm(st.diags),
        ready(env, file_descendants(items)),
    ensures
        calm(lower_items(env, items, st).2.diags),
    decreases items.len(),
{
    if items.len() > 0 {
        let last = match items.last() {
            TopLevel::Fn(f) => opt_block_descendants(f.body),
            TopLevel::Stmt(s) => one_stmt_descendants(s),
            _ => Seq::empty(),
        };
        lemma_split(env, file_descendants(items.drop_last()), last);
        lemma_items(env, items.drop_last(), st);
        let before = lower_items(env, items.drop_last(), st).2;
        match items.last() {
            TopLevel::Fn(f) => {
                if let Some(b) = f.body {
                    lemma_block(env, b, before);
                }
                assert(calm(lower_fn(env, f, before).1.diags));
            },
            TopLevel::Stmt(s) => lemma_stmt(env, s, before),
            _ => {},
        }
    }
}

// ---------------------------------------------------------------------------
// Laws
// ---------------------------------------------------------------------------

/// Lowering never misses a type: where analysis recorded one for every
/// expression of a file, lowering the file reports none as missing.
pub proof fn law_lowering_misses_no_type(env: LowerEnv, items: Seq<TopLevel>, range: Span)
    requires
        ready(env, file_descendants(items)),
    ensures
        calm(lower_module(env, items, range).diags),
{
    lemma_items(env, items, crate::lower_spec::nothing_yet());
}

} // verus!
