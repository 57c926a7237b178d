//! What the reports on a `match` say of its arms as the source has them.
use vstd::prelude::*;

use crate::analysis::{found, reports};
use crate::ast::{Expr, ExprKind, FieldPattern, MatchArm, Param, Pattern, PatternKind, TopLevel};
use crate::descend::{file_descendants, Visit};
use crate::exhaustive::{
    any_matches, arm_reports, check_all, check_one, cover_fits, cover_matches, cover_of, has_type,
    law_accepted_matches_cover_every_value, law_unreachable_arms_add_nothing, match_reports,
    row_fits, row_matches, row_of, rows_fit, single, uncovered, unreachable_arm, useful, Cover, Row,
    Val,
};
use crate::infer_spec::Inf;
use crate::pattern::{
    binding_reports, build_fields, build_spec, build_subs, check_expr, check_params, check_visits, component,
    for_must, lit_value, merged, padded, param_must, pattern_param_type, reported,
    variants_numbered, PatternEnv,
};
use crate::report_order::law_ordering_keeps_the_count;
use crate::source::{DiagCode, DiagView, FileId, FileSpan, Span};
use crate::symbol::SymbolView;
use crate::tables::{at, NodeKey};
use crate::tree::{irrefutable, law_no_reason_means_irrefutable, PatternView};
use crate::typedb::{field_names, lemma_first_named, variant_names, DbView};
use crate::types::{RecordDefId, Type, TypeList};

verus! {

/// Whether a value of type `ty` matches an arm.
pub open spec fn arm_matches(env: PatternEnv, arm: MatchArm, ty: Type, v: Val) -> bool {
    match arm.pattern {
        Some(pat) => cover_matches(cover_of(build_spec(env, pat, ty, Seq::empty()).0), v),
        None => true,
    }
}

// ---------------------------------------------------------------------------
// Built patterns have a part for each component
// ---------------------------------------------------------------------------

proof fn lemma_row_of_fits(
    db: DbView,
    s: Seq<PatternView>,
    ts: Seq<Type>,
    rest: Row,
    more: Seq<Type>,
)
    requires
        s.len() == ts.len(),
        forall|i: int| 0 <= i < s.len() ==> cover_fits(db, ts[i], cover_of(#[trigger] s[i])),
        row_fits(db, more, rest),
    ensures
        row_fits(db, ts + more, row_of(s, rest)),
    decreases s.len(),
{
    if s.len() == 0 {
        assert(ts + more =~= more);
    } else {
        let head = Row::Cons(Box::new(cover_of(s.last())), Box::new(rest));
        let types = seq![ts.last()] + more;
        assert(types.skip(1) =~= more);
        assert(s.last() == s[s.len() - 1]);
        assert(row_fits(db, types, head));
        assert forall|i: int| 0 <= i < s.len() - 1 implies cover_fits(
            db,
            ts.drop_last()[i],
            cover_of(#[trigger] s.drop_last()[i]),
        ) by {
            assert(s.drop_last()[i] == s[i]);
        }
        lemma_row_of_fits(db, s.drop_last(), ts.drop_last(), head, types);
        assert(ts.drop_last() + types =~= ts + more);
    }
}

/// Patterns cut or padded to the components of a test fit where each that is
/// kept does.
proof fn lemma_padded_fits(db: DbView, s: Seq<PatternView>, ts: Seq<Type>)
    requires
        forall|i: int|
            0 <= i < s.len() && i < ts.len() ==> cover_fits(db, ts[i], cover_of(#[trigger] s[i])),
    ensures
        row_fits(db, ts, row_of(padded(s, ts.len()), Row::Nil)),
{
    let p = padded(s, ts.len());
    assert forall|i: int| 0 <= i < p.len() implies cover_fits(db, ts[i], cover_of(#[trigger] p[i])) by {
        if i < s.len() {
            assert(cover_fits(db, ts[i], cover_of(s[i])));
        }
    }
    assert(row_fits(db, Seq::empty(), Row::Nil));
    lemma_row_of_fits(db, p, ts, Row::Nil, Seq::empty());
    assert(ts + Seq::empty() =~= ts);
}

/// A built pattern has one part for each component of the values that can pass its
/// tests, at every depth.
pub proof fn law_built_patterns_fit(
    env: PatternEnv,
    pat: Pattern,
    ty: Type,
    diags: Seq<DiagView>,
)
    requires
        variants_numbered(env.db),
    ensures
        cover_fits(env.db, ty, cover_of(build_spec(env, pat, ty, diags).0)),
    decreases pat,
{
    let db = env.db;
    let resolved = db.resolve(ty);
    match pat.kind {
        PatternKind::Literal(Some(t)) => {
            if let Some(v) = lit_value(t) {
                assert(row_fits(db, Seq::empty(), Row::Nil));
            }
        },
        PatternKind::Name(name) => {
            if let Type::Enum(def, args) = resolved {
                if let Some(i) = db.variant_index(def, name.text@) {
                    lemma_first_named(variant_names(db.enums[def.0 as int]), name.text@);
                    lemma_padded_fits(db, Seq::empty(), db.payload_of(def, args, i));
                }
            }
        },
        PatternKind::Variant(name, subs) => {
            if let Type::Enum(def, args) = resolved {
                if let Some(i) = db.variant_index(def, name.text@) {
                    let payload = db.payload_of(def, args, i);
                    lemma_first_named(variant_names(db.enums[def.0 as int]), name.text@);
                    lemma_subs_fit(env, subs@, payload, ty, diags);
                    lemma_padded_fits(db, build_subs(env, subs@, payload, ty, diags).0, payload);
                }
            }
        },
        PatternKind::Tuple(subs) => {
            if let Type::Tuple(els) = resolved {
                lemma_subs_fit(env, subs@, els.seq(), ty, diags);
                lemma_padded_fits(db, build_subs(env, subs@, els.seq(), ty, diags).0, els.seq());
            }
        },
        PatternKind::Record(_, fields) => {
            if let Type::Record(def, args) = resolved {
                let start = padded(Seq::empty(), db.field_count(def));
                lemma_fields_fit(env, fields@, def, args, start, diags);
                let built = build_fields(env, fields@, def, args, start, diags).0;
                let ts = Seq::new(db.field_count(def), |i: int| db.field_type(def, args, i as nat));
                assert(row_fits(db, Seq::empty(), Row::Nil));
                lemma_row_of_fits(db, built, ts, Row::Nil, Seq::empty());
                assert(ts + Seq::empty() =~= ts);
            }
        },
        _ => {},
    }
}

proof fn lemma_subs_fit(
    env: PatternEnv,
    subs: Seq<Pattern>,
    tys: Seq<Type>,
    otherwise: Type,
    diags: Seq<DiagView>,
)
    requires
        variants_numbered(env.db),
    ensures
        build_subs(env, subs, tys, otherwise, diags).0.len() == subs.len(),
        forall|i: int|
            0 <= i < subs.len() && i < tys.len() ==> cover_fits(
                env.db,
                tys[i],
                cover_of(#[trigger] build_subs(env, subs, tys, otherwise, diags).0[i]),
            ),
    decreases subs,
{
    if subs.len() > 0 {
        let (built, before) = build_subs(env, subs.drop_last(), tys, otherwise, diags);
        let all = build_subs(env, subs, tys, otherwise, diags).0;
        let ty = component(tys, subs.len() - 1, otherwise);
        lemma_subs_fit(env, subs.drop_last(), tys, otherwise, diags);
        law_built_patterns_fit(env, subs.last(), ty, before);
        assert forall|i: int| 0 <= i < subs.len() && i < tys.len() implies cover_fits(
            env.db,
            tys[i],
            cover_of(#[trigger] all[i]),
        ) by {
            if i < subs.len() - 1 {
                assert(all[i] == built[i]);
            }
        }
    }
}

proof fn lemma_fields_fit(
    env: PatternEnv,
    fields: Seq<FieldPattern>,
    def: RecordDefId,
    args: TypeList,
    start: Seq<PatternView>,
    diags: Seq<DiagView>,
)
    requires
        variants_numbered(env.db),
        start.len() == env.db.field_count(def),
        forall|i: int| 0 <= i < start.len() ==> (#[trigger] start[i]) == PatternView::Wildcard,
    ensures
        build_fields(env, fields, def, args, start, diags).0.len() == start.len(),
        forall|i: int|
            0 <= i < start.len() ==> cover_fits(
                env.db,
                env.db.field_type(def, args, i as nat),
                cover_of(#[trigger] build_fields(env, fields, def, args, start, diags).0[i]),
            ),
    decreases fields,
{
    let all = build_fields(env, fields, def, args, start, diags).0;
    if fields.len() > 0 {
        let (built, before) = build_fields(env, fields.drop_last(), def, args, start, diags);
        lemma_fields_fit(env, fields.drop_last(), def, args, start, diags);
        let field = fields.last();
        if let Some(name) = field.name {
            if let Some(i) = env.db.field_index(def, name.text@) {
                let ty = env.db.field_type(def, args, i);
                lemma_first_named(field_names(env.db.records[def.0 as int]), name.text@);
                if let Some(sub) = field.pattern {
                    law_built_patterns_fit(env, sub, ty, before);
                }
                assert(cover_fits(env.db, ty, cover_of(all[i as int])));
                assert forall|j: int| 0 <= j < start.len() implies cover_fits(
                    env.db,
                    env.db.field_type(def, args, j as nat),
                    cover_of(#[trigger] all[j]),
                ) by {
                    if j != i {
                        assert(all[j] == built[j]);
                    }
                }
            }
        }
    }
}

// ---------------------------------------------------------------------------
// What is built does not depend on the reports before
// ---------------------------------------------------------------------------

proof fn lemma_same_pattern(
    env: PatternEnv,
    pat: Pattern,
    ty: Type,
    a: Seq<DiagView>,
    b: Seq<DiagView>,
)
    ensures
        build_spec(env, pat, ty, a).0 == build_spec(env, pat, ty, b).0,
    decreases pat,
{
    let resolved = env.db.resolve(ty);
    match pat.kind {
        PatternKind::Variant(name, subs) => {
            if let Type::Enum(def, args) = resolved {
                if let Some(i) = env.db.variant_index(def, name.text@) {
                    lemma_same_subs(env, subs@, env.db.payload_of(def, args, i), ty, a, b);
                }
            }
        },
        PatternKind::Tuple(subs) => {
            if let Type::Tuple(els) = resolved {
                lemma_same_subs(env, subs@, els.seq(), ty, a, b);
            }
        },
        PatternKind::Record(_, fields) => {
            if let Type::Record(def, args) = resolved {
                let start = padded(Seq::empty(), env.db.field_count(def));
                lemma_same_fields(env, fields@, def, args, start, a, b);
            }
        },
        _ => {},
    }
}

proof fn lemma_same_subs(
    env: PatternEnv,
    subs: Seq<Pattern>,
    tys: Seq<Type>,
    otherwise: Type,
    a: Seq<DiagView>,
    b: Seq<DiagView>,
)
    ensures
        build_subs(env, subs, tys, otherwise, a).0 == build_subs(env, subs, tys, otherwise, b).0,
    decreases subs,
{
    if subs.len() > 0 {
        lemma_same_subs(env, subs.drop_last(), tys, otherwise, a, b);
        lemma_same_pattern(
            env,
            subs.last(),
            component(tys, subs.len() - 1, otherwise),
            build_subs(env, subs.drop_last(), tys, otherwise, a).1,
            build_subs(env, subs.drop_last(), tys, otherwise, b).1,
        );
    }
}

proof fn lemma_same_fields(
    env: PatternEnv,
    fields: Seq<FieldPattern>,
    def: RecordDefId,
    args: TypeList,
    start: Seq<PatternView>,
    a: Seq<DiagView>,
    b: Seq<DiagView>,
)
    ensures
        build_fields(env, fields, def, args, start, a).0 == build_fields(
            env,
            fields,
            def,
            args,
            start,
            b,
        ).0,
    decreases fields,
{
    if fields.len() > 0 {
        lemma_same_fields(env, fields.drop_last(), def, args, start, a, b);
        let field = fields.last();
        if let Some(name) = field.name {
            if let Some(i) = env.db.field_index(def, name.text@) {
                if let Some(sub) = field.pattern {
                    lemma_same_pattern(
                        env,
                        sub,
                        env.db.field_type(def, args, i),
                        build_fields(env, fields.drop_last(), def, args, start, a).1,
                        build_fields(env, fields.drop_last(), def, args, start, b).1,
                    );
                }
            }
        }
    }
}

// ---------------------------------------------------------------------------
// Whole matches
// ---------------------------------------------------------------------------

proof fn lemma_arms_fit(env: PatternEnv, arms: Seq<MatchArm>, ty: Type)
    requires
        variants_numbered(env.db),
    ensures
        rows_fit(env.db, seq![ty], arm_reports(env, arms, ty).0),
    decreases arms.len(),
{
    if arms.len() > 0 {
        let (rows, before) = arm_reports(env, arms.drop_last(), ty);
        lemma_arms_fit(env, arms.drop_last(), ty);
        assert(arms.last() == arms[arms.len() - 1]);
        assert(seq![ty].skip(1) =~= Seq::empty());
        assert(row_fits(env.db, Seq::empty(), Row::Nil));
        if let Some(pat) = arms.last().pattern {
            law_built_patterns_fit(env, pat, ty, before);
            assert(row_fits(env.db, seq![ty], single(cover_of(build_spec(env, pat, ty, before).0))));
        } else {
            assert(cover_fits(env.db, ty, Cover::Any));
            assert(row_fits(env.db, seq![ty], single(Cover::Any)));
        }
    }
}

proof fn lemma_arms_match(env: PatternEnv, arms: Seq<MatchArm>, ty: Type, v: Val) -> (i: int)
    requires
        any_matches(arm_reports(env, arms, ty).0, seq![v]),
    ensures
        0 <= i < arms.len(),
        arm_matches(env, arms[i], ty, v),
    decreases arms.len(),
{
    let (rows, before) = arm_reports(env, arms.drop_last(), ty);
    assert(seq![v].skip(1) =~= Seq::empty());
    assert(seq![v][0] == v);
    if any_matches(rows, seq![v]) {
        lemma_arms_match(env, arms.drop_last(), ty, v)
    } else {
        if let Some(pat) = arms.last().pattern {
            lemma_same_pattern(env, pat, ty, before, Seq::empty());
            assert(row_matches(single(cover_of(build_spec(env, pat, ty, before).0)), seq![v]));
        }
        arms.len() - 1
    }
}

/// A `match` that is not reported to leave something out has an arm for every
/// value of the matched type.
pub proof fn law_unreported_matches_leave_nothing_out(
    env: PatternEnv,
    arms: Seq<MatchArm>,
    ty: Type,
    at: FileSpan,
    v: Val,
)
    requires
        variants_numbered(env.db),
        has_type(env.db, ty, v),
        forall|i: int|
            0 <= i < match_reports(env, arms, ty, at).len() ==> (#[trigger] match_reports(
                env,
                arms,
                ty,
                at,
            )[i]).code != DiagCode::NonExhaustiveMatch,
    ensures
        exists|i: int| 0 <= i < arms.len() && #[trigger] arm_matches(env, arms[i], ty, v),
{
    let (rows, reports) = arm_reports(env, arms, ty);
    if useful(env.db, seq![ty], rows, single(Cover::Any)) {
        let all = match_reports(env, arms, ty, at);
        assert(all[all.len() - 1] == uncovered(env.db, ty, rows, at));
        assert(all[all.len() - 1].code == DiagCode::NonExhaustiveMatch);
    }
    lemma_arms_fit(env, arms, ty);
    law_accepted_matches_cover_every_value(env.db, ty, rows, v);
    let i = lemma_arms_match(env, arms, ty, v);
    assert(arm_matches(env, arms[i], ty, v));
}

/// Whether the last of the arms is reported as one that can never run.
pub open spec fn last_is_reported(env: PatternEnv, arms: Seq<MatchArm>, ty: Type) -> bool {
    match arms.last().pattern {
        Some(pat) => arm_reports(env, arms, ty).1 == build_spec(
            env,
            pat,
            ty,
            arm_reports(env, arms.drop_last(), ty).1,
        ).1.push(unreachable_arm(FileSpan { file: env.file, span: pat.range })),
        None => false,
    }
}

/// An arm that is reported never runs: whatever it matches, an arm before it
/// matches.
pub proof fn law_reported_arms_never_run(
    env: PatternEnv,
    arms: Seq<MatchArm>,
    ty: Type,
    v: Val,
)
    requires
        arms.len() > 0,
        variants_numbered(env.db),
        has_type(env.db, ty, v),
        last_is_reported(env, arms, ty),
        arm_matches(env, arms.last(), ty, v),
    ensures
        exists|i: int| 0 <= i < arms.len() - 1 && #[trigger] arm_matches(env, arms[i], ty, v),
{
    let earlier = arms.drop_last();
    let (rows, before) = arm_reports(env, earlier, ty);
    let pat = arms.last().pattern->0;
    let (p, built) = build_spec(env, pat, ty, before);
    let report = unreachable_arm(FileSpan { file: env.file, span: pat.range });
    assert(built.len() != built.push(report).len());
    assert(!useful(env.db, seq![ty], rows, single(cover_of(p))));
    assert(arms.last() == arms[arms.len() - 1]);
    lemma_arms_fit(env, earlier, ty);
    law_built_patterns_fit(env, pat, ty, before);
    lemma_same_pattern(env, pat, ty, before, Seq::empty());
    law_unreachable_arms_add_nothing(env.db, ty, rows, cover_of(p), v);
    let i = lemma_arms_match(env, earlier, ty, v);
    assert(arm_matches(env, arms[i], ty, v));
}

// ---------------------------------------------------------------------------
// Whole files
// ---------------------------------------------------------------------------

/// Merging takes nothing away.
proof fn lemma_merged_grows(out: Seq<DiagView>, built: Seq<DiagView>)
    ensures
        out.len() <= merged(out, built).len(),
        out.len() == 0 && built.len() > 0 ==> merged(out, built).len() > 0,
    decreases built.len(),
{
    if built.len() > 0 {
        lemma_merged_grows(out, built.drop_last());
        let before = merged(out, built.drop_last());
        if out.len() == 0 && before.len() == 0 {
            assert(!reported(before, built.last()));
        }
    }
}

/// Checking matches takes no report away, and reports what is wrong with each
/// where nothing else is reported.
proof fn lemma_checked(
    env: PatternEnv,
    expr_types: Map<NodeKey, Type>,
    vs: Seq<Visit>,
    out: Seq<DiagView>,
    i: int,
)
    requires
        0 <= i < vs.len(),
        check_all(env, expr_types, vs, out).len() == 0,
    ensures
        out.len() == 0,
        vs[i] matches Visit::Expr(e) ==> check_one(env, expr_types, e, Seq::empty()).len() == 0,
    decreases vs.len(),
{
    let before = check_all(env, expr_types, vs.drop_last(), out);
    if let Visit::Expr(e) = vs.last() {
        lemma_one_grows(env, expr_types, e, before);
    }
    lemma_all_grow(env, expr_types, vs.drop_last(), out);
    assert(before =~= Seq::empty());
    if i < vs.len() - 1 {
        lemma_checked(env, expr_types, vs.drop_last(), out, i);
    }
}

proof fn lemma_one_grows(
    env: PatternEnv,
    expr_types: Map<NodeKey, Type>,
    e: Expr,
    out: Seq<DiagView>,
)
    ensures
        out.len() <= check_one(env, expr_types, e, out).len(),
{
    if let ExprKind::Match { scrutinee: Some(s), arms } = e.kind {
        if let Some(t) = at(expr_types, s.spec_key()) {
            lemma_merged_grows(
                out,
                match_reports(
                    env,
                    arms@,
                    env.db.resolve(t),
                    FileSpan { file: env.file, span: e.range },
                ),
            );
        }
    }
}

proof fn lemma_all_grow(
    env: PatternEnv,
    expr_types: Map<NodeKey, Type>,
    vs: Seq<Visit>,
    out: Seq<DiagView>,
)
    ensures
        out.len() <= check_all(env, expr_types, vs, out).len(),
    decreases vs.len(),
{
    if vs.len() > 0 {
        lemma_all_grow(env, expr_types, vs.drop_last(), out);
        if let Visit::Expr(e) = vs.last() {
            lemma_one_grows(env, expr_types, e, check_all(env, expr_types, vs.drop_last(), out));
        }
    }
}

proof fn lemma_params_grow(
    env: PatternEnv,
    names: Seq<SymbolView>,
    ps: Seq<Param>,
    out: Seq<DiagView>,
)
    ensures
        out.len() <= check_params(env, names, ps, out).len(),
    decreases ps.len(),
{
    if ps.len() > 0 {
        lemma_params_grow(env, names, ps.drop_last(), out);
        let before = check_params(env, names, ps.drop_last(), out);
        if let Some(pat) = ps.last().pattern {
            if let Some(ty) = pattern_param_type(env, names, pat.range) {
                lemma_merged_grows(before, binding_reports(env, pat, ty, param_must()));
            }
        }
    }
}

/// The reports after the binding patterns of one visit.
spec fn after_visit(
    env: PatternEnv,
    names: Seq<SymbolView>,
    ref_types: Map<Span, Type>,
    v: Visit,
    out: Seq<DiagView>,
) -> Seq<DiagView> {
    match v {
        Visit::Expr(e) => check_expr(env, names, ref_types, e, out),
        Visit::Target(_) => out,
    }
}

proof fn lemma_visit_grows(
    env: PatternEnv,
    names: Seq<SymbolView>,
    ref_types: Map<Span, Type>,
    v: Visit,
    out: Seq<DiagView>,
)
    ensures
        out.len() <= after_visit(env, names, ref_types, v, out).len(),
{
    if let Visit::Expr(e) = v {
        match e.kind {
            ExprKind::For { binding: Some(pat), .. } => {
                if let Some(ty) = at(ref_types, pat.range) {
                    lemma_merged_grows(out, binding_reports(env, pat, ty, for_must()));
                }
            },
            ExprKind::Closure { params, .. } => lemma_params_grow(env, names, params@, out),
            _ => {},
        }
    }
}

/// Checking the patterns that bind takes no report away.
proof fn lemma_bindings_grow(
    env: PatternEnv,
    names: Seq<SymbolView>,
    ref_types: Map<Span, Type>,
    vs: Seq<Visit>,
    out: Seq<DiagView>,
)
    ensures
        out.len() <= check_visits(env, names, ref_types, vs, out).len(),
    decreases vs.len(),
{
    if vs.len() > 0 {
        lemma_bindings_grow(env, names, ref_types, vs.drop_last(), out);
        let before = check_visits(env, names, ref_types, vs.drop_last(), out);
        lemma_visit_grows(env, names, ref_types, vs.last(), before);
    }
}

/// A `match` stands in a file, over values of a known type.
pub open spec fn matches_on(
    st: Inf,
    items: Seq<TopLevel>,
    e: Expr,
    arms: Seq<MatchArm>,
    ty: Type,
) -> bool {
    &&& file_descendants(items).contains(Visit::Expr(e))
    &&& match e.kind {
        ExprKind::Match { scrutinee: Some(s), arms: given } => given@ == arms && match at(
            st.expr_types,
            s.spec_key(),
        ) {
            Some(t) => st.db.resolve(t) == ty,
            None => false,
        },
        _ => false,
    }
    &&& !(ty is Var)
}

/// A file with nothing to report has, in every `match` over values of a known
/// type, an arm for every value of it.
pub proof fn law_clean_files_leave_nothing_out(
    file: FileId,
    st: Inf,
    items: Seq<TopLevel>,
    e: Expr,
    arms: Seq<MatchArm>,
    ty: Type,
    v: Val,
)
    requires
        variants_numbered(st.db),
        reports(file, st, items).len() == 0,
        matches_on(st, items, e, arms, ty),
        has_type(st.db, ty, v),
    ensures
        ({
            let env = PatternEnv { file, db: st.db, decls: st.decls };
            exists|i: int| 0 <= i < arms.len() && #[trigger] arm_matches(env, arms[i], ty, v)
        }),
{
    let env = PatternEnv { file, db: st.db, decls: st.decls };
    let vs = file_descendants(items);
    let checked = check_all(env, st.expr_types, vs, st.diags);
    law_ordering_keeps_the_count(found(file, st, items));
    lemma_bindings_grow(env, st.names, st.ref_types, vs, checked);
    let i = choose|i: int| 0 <= i < vs.len() && vs[i] == Visit::Expr(e);
    lemma_checked(env, st.expr_types, vs, st.diags, i);
    let here = FileSpan { file, span: e.range };
    let all = match_reports(env, arms, ty, here);
    lemma_merged_grows(Seq::empty(), all);
    assert(all.len() == 0);
    law_unreported_matches_leave_nothing_out(env, arms, ty, here, v);
}

/// What checking one more expression's patterns reports is there at the end.
proof fn lemma_bindings_checked(
    env: PatternEnv,
    names: Seq<SymbolView>,
    ref_types: Map<Span, Type>,
    vs: Seq<Visit>,
    out: Seq<DiagView>,
    i: int,
)
    requires
        0 <= i < vs.len(),
        check_visits(env, names, ref_types, vs, out).len() == 0,
    ensures
        vs[i] matches Visit::Expr(e) ==> check_expr(env, names, ref_types, e, Seq::empty()).len()
            == 0,
    decreases vs.len(),
{
    let before = check_visits(env, names, ref_types, vs.drop_last(), out);
    lemma_visit_grows(env, names, ref_types, vs.last(), before);
    assert(before =~= Seq::empty());
    if i < vs.len() - 1 {
        lemma_bindings_checked(env, names, ref_types, vs.drop_last(), out, i);
    }
}

/// A file with nothing to report binds in its `for` headers only what matches
/// every item.
pub proof fn law_clean_files_bind_every_item(
    file: FileId,
    st: Inf,
    items: Seq<TopLevel>,
    e: Expr,
    pat: Pattern,
    ty: Type,
)
    requires
        reports(file, st, items).len() == 0,
        file_descendants(items).contains(Visit::Expr(e)),
        e.kind matches ExprKind::For { binding, .. } && binding == Some(pat),
        at(st.ref_types, pat.range) == Some(ty),
    ensures
        ({
            let env = PatternEnv { file, db: st.db, decls: st.decls };
            irrefutable(build_spec(env, pat, ty, Seq::empty()).0)
        }),
{
    let env = PatternEnv { file, db: st.db, decls: st.decls };
    let vs = file_descendants(items);
    law_ordering_keeps_the_count(found(file, st, items));
    let i = choose|i: int| 0 <= i < vs.len() && vs[i] == Visit::Expr(e);
    lemma_bindings_checked(
        env,
        st.names,
        st.ref_types,
        vs,
        check_all(env, st.expr_types, vs, st.diags),
        i,
    );
    lemma_merged_grows(Seq::empty(), binding_reports(env, pat, ty, for_must()));
    law_no_reason_means_irrefutable(build_spec(env, pat, ty, Seq::empty()).0);
}

} // verus!
