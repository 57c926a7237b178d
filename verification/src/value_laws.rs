//! Patterns and values: which values a written pattern accepts, and what the
//! reports on a `match` say of them.
use vstd::prelude::*;

use crate::ast::{FieldPattern, LitToken, MatchArm, Pattern, PatternKind};
use crate::coverage_laws::{
    arm_matches, last_is_reported, law_reported_arms_never_run,
    law_unreported_matches_leave_nothing_out,
};
use crate::exhaustive::{
    cover_matches, cover_of, has_type, have_types, key_of, lemma_chars_injective, match_reports,
    row_matches, row_of, Key, Row, Val,
};
use crate::pattern::{
    build_fields, build_spec, build_subs, component, padded, variants_numbered, PatternEnv,
};
use crate::source::{DiagCode, DiagView, FileSpan};
use crate::tree::{all_irrefutable, irrefutable, LitView, PatternView};
use crate::typedb::{field_names, lemma_first_named, variant_names, DbView};
use crate::types::{EnumDefId, RecordDefId, ScalarType, Type, TypeList};

verus! {

/// A value a program can match on.
pub ghost enum Value {
    Lit(LitView),
    Variant(EnumDefId, u32, Seq<Value>),
    Tuple(Seq<Value>),
    Record(RecordDefId, Seq<Value>),
}

/// Whether a value is one of type `t`.
pub open spec fn is_of(db: DbView, t: Type, v: Value) -> bool
    decreases v,
{
    match (db.resolve(t), v) {
        (Type::Scalar(s), Value::Lit(l)) => match l {
            LitView::Int(_) => s == ScalarType::Int,
            LitView::Float(_) => s == ScalarType::Float,
            LitView::Text(_) => s == ScalarType::Text,
            LitView::Bool(_) => s == ScalarType::Bool,
            LitView::Char(_) => s == ScalarType::Char,
            LitView::Unit => false,
        },
        (Type::Unit, Value::Lit(l)) => l == LitView::Unit,
        (Type::Tuple(l), Value::Tuple(vs)) => are_of(db, l.seq(), vs),
        (Type::Enum(d, args), Value::Variant(e, i, vs)) => {
            &&& d == e
            &&& db.enum_def(d) is Some
            &&& i < db.enum_def(d)->0.variants.len()
            &&& are_of(db, db.payload_of(d, args, i as nat), vs)
        },
        (Type::Record(d, args), Value::Record(e, vs)) => {
            &&& d == e
            &&& are_of(
                db,
                Seq::new(db.field_count(d), |i: int| db.field_type(d, args, i as nat)),
                vs,
            )
        },
        _ => false,
    }
}

/// Whether values are of the types in their places.
pub open spec fn are_of(db: DbView, ts: Seq<Type>, vs: Seq<Value>) -> bool
    decreases vs,
{
    if vs.len() == 0 {
        ts.len() == 0
    } else {
        ts.len() == vs.len() && are_of(db, ts.drop_last(), vs.drop_last()) && is_of(
            db,
            ts.last(),
            vs.last(),
        )
    }
}

proof fn lemma_are_of(db: DbView, ts: Seq<Type>, vs: Seq<Value>)
    requires
        are_of(db, ts, vs),
    ensures
        ts.len() == vs.len(),
        forall|i: int| 0 <= i < vs.len() ==> is_of(db, ts[i], #[trigger] vs[i]),
    decreases vs.len(),
{
    if vs.len() > 0 {
        lemma_are_of(db, ts.drop_last(), vs.drop_last());
        assert forall|i: int| 0 <= i < vs.len() implies is_of(db, ts[i], #[trigger] vs[i]) by {
            if i < vs.len() - 1 {
                assert(vs.drop_last()[i] == vs[i]);
            }
        }
    }
}

// ---------------------------------------------------------------------------
// What a pattern accepts
// ---------------------------------------------------------------------------

/// Whether `i` is the number of the variant of `d` that is called `name`.
pub open spec fn variant_called(db: DbView, d: EnumDefId, i: nat, name: Seq<char>) -> bool {
    match db.enum_def(d) {
        Some(e) => {
            &&& i < e.variants.len()
            &&& e.variants[i as int].name == name
            &&& forall|j: int| 0 <= j < i ==> (#[trigger] e.variants[j]).name != name
        },
        None => false,
    }
}

/// Whether `i` is the place of the field of `d` that is called `name`.
pub open spec fn field_called(db: DbView, d: RecordDefId, i: nat, name: Seq<char>) -> bool {
    match db.record_def(d) {
        Some(r) => {
            &&& i < r.fields.len()
            &&& r.fields[i as int].name == name
            &&& forall|j: int| 0 <= j < i ==> (#[trigger] r.fields[j]).name != name
        },
        None => false,
    }
}

/// Whether a pattern accepts a value of type `t`, by what is written: a literal
/// accepts the value it denotes, a variant's name the values made with that
/// variant, parts in brackets the values whose parts they accept, a field's name
/// what stands in that field, and any other name every value.
pub open spec fn accepts(db: DbView, pat: Pattern, t: Type, v: Value) -> bool
    decreases pat,
{
    match pat.kind {
        PatternKind::Wildcard => true,
        PatternKind::Literal(None) => true,
        PatternKind::Literal(Some(tok)) => match tok {
            LitToken::Int(Some(n), _) => v == Value::Lit(LitView::Int(n)),
            LitToken::Float(b) => v == Value::Lit(LitView::Float(b)),
            LitToken::Text(s) => v == Value::Lit(LitView::Text(s@)),
            LitToken::Char(Some(c)) => v == Value::Lit(LitView::Char(c)),
            LitToken::True => v == Value::Lit(LitView::Bool(true)),
            LitToken::False => v == Value::Lit(LitView::Bool(false)),
            _ => true,
        },
        PatternKind::Name(name) => match db.resolve(t) {
            Type::Enum(d, _) => (exists|i: nat| variant_called(db, d, i, name.text@)) ==> match v {
                Value::Variant(_, i, _) => variant_called(db, d, i as nat, name.text@),
                _ => false,
            },
            _ => true,
        },
        PatternKind::Variant(name, subs) => match (db.resolve(t), v) {
            (Type::Enum(d, args), Value::Variant(_, i, vs)) => variant_called(
                db,
                d,
                i as nat,
                name.text@,
            ) && accept_parts(db, subs@, db.payload_of(d, args, i as nat), vs),
            _ => false,
        },
        PatternKind::Tuple(subs) => match (db.resolve(t), v) {
            (Type::Tuple(l), Value::Tuple(vs)) => accept_parts(db, subs@, l.seq(), vs),
            _ => false,
        },
        PatternKind::Record(_, fields) => match (db.resolve(t), v) {
            (Type::Record(d, args), Value::Record(_, vs)) => accept_fields(db, fields@, d, args, vs),
            _ => false,
        },
    }
}

/// Whether patterns side by side accept the values in their places; what has no
/// pattern is accepted, and a pattern with no value in its place asks nothing.
pub open spec fn accept_parts(db: DbView, subs: Seq<Pattern>, ts: Seq<Type>, vs: Seq<Value>) -> bool
    decreases subs,
{
    if subs.len() == 0 {
        true
    } else {
        accept_parts(db, subs.drop_last(), ts, vs) && (subs.len() <= vs.len() ==> accepts(
            db,
            subs.last(),
            ts[subs.len() - 1],
            vs[subs.len() - 1],
        ))
    }
}

/// Whether patterns under field names accept what stands in those fields.
pub open spec fn accept_fields(
    db: DbView,
    fields: Seq<FieldPattern>,
    d: RecordDefId,
    args: TypeList,
    vs: Seq<Value>,
) -> bool
    decreases fields,
{
    if fields.len() == 0 {
        true
    } else {
        accept_fields(db, fields.drop_last(), d, args, vs) && match fields.last() {
            FieldPattern { name: Some(name), pattern: Some(sub) } => forall|i: nat| #[trigger]
                field_called(db, d, i, name.text@) ==> accepts(
                    db,
                    sub,
                    db.field_type(d, args, i),
                    vs[i as int],
                ),
            _ => true,
        }
    }
}

/// Whether every literal in a pattern has a value, and no field is named twice.
pub open spec fn proper(pat: Pattern) -> bool
    decreases pat,
{
    match pat.kind {
        PatternKind::Literal(Some(tok)) => tok != LitToken::Char(None),
        PatternKind::Variant(_, subs) => all_proper(subs@),
        PatternKind::Tuple(subs) => all_proper(subs@),
        PatternKind::Record(_, fields) => fields_proper(fields@),
        _ => true,
    }
}

pub open spec fn all_proper(subs: Seq<Pattern>) -> bool
    decreases subs,
{
    subs.len() == 0 || (all_proper(subs.drop_last()) && proper(subs.last()))
}

/// Whether one of the fields has the name.
pub open spec fn names(fields: Seq<FieldPattern>, name: Seq<char>) -> bool {
    exists|i: int|
        0 <= i < fields.len() && (#[trigger] fields[i]).name is Some && fields[i].name->0.text@
            == name
}

pub open spec fn fields_proper(fields: Seq<FieldPattern>) -> bool
    decreases fields,
{
    fields.len() == 0 || (fields_proper(fields.drop_last()) && match fields.last() {
        FieldPattern { name: Some(name), pattern } => !names(fields.drop_last(), name.text@)
            && match pattern {
            Some(sub) => proper(sub),
            None => true,
        },
        _ => true,
    })
}

// ---------------------------------------------------------------------------
// What a built pattern fits
// ---------------------------------------------------------------------------

/// Whether a value fits a built pattern.
pub open spec fn fits(p: PatternView, v: Value) -> bool
    decreases p,
{
    match p {
        PatternView::Wildcard => true,
        PatternView::Bind(_, _, _, _) => true,
        PatternView::Lit(l, _) => v == Value::Lit(l),
        PatternView::EnumVariant(d, i, subs, _) => match v {
            Value::Variant(e, j, vs) => d == e && i == j && all_fit(subs, vs),
            _ => false,
        },
        PatternView::Tuple(subs, _) => match v {
            Value::Tuple(vs) => all_fit(subs, vs),
            _ => false,
        },
        PatternView::Record(d, subs, _) => match v {
            Value::Record(e, vs) => d == e && all_fit(subs, vs),
            _ => false,
        },
    }
}

pub open spec fn all_fit(ps: Seq<PatternView>, vs: Seq<Value>) -> bool
    decreases ps,
{
    ps.len() == vs.len() && forall|i: int| 0 <= i < ps.len() ==> fits(#[trigger] ps[i], vs[i])
}

/// The same value, as coverage sees it.
pub open spec fn val(v: Value) -> Val
    decreases v,
{
    match v {
        Value::Lit(l) => Val { key: key_of(l), parts: Seq::empty() },
        Value::Variant(d, i, vs) => Val { key: Key::Variant(d, i), parts: vals(vs) },
        Value::Tuple(vs) => Val { key: Key::Tuple, parts: vals(vs) },
        Value::Record(d, vs) => Val { key: Key::Record(d), parts: vals(vs) },
    }
}

pub open spec fn vals(vs: Seq<Value>) -> Seq<Val>
    decreases vs,
{
    if vs.len() == 0 {
        Seq::empty()
    } else {
        vals(vs.drop_last()).push(val(vs.last()))
    }
}

proof fn lemma_vals(vs: Seq<Value>)
    ensures
        vals(vs).len() == vs.len(),
        forall|i: int| 0 <= i < vs.len() ==> #[trigger] vals(vs)[i] == val(vs[i]),
    decreases vs.len(),
{
    if vs.len() > 0 {
        lemma_vals(vs.drop_last());
        assert forall|i: int| 0 <= i < vs.len() implies #[trigger] vals(vs)[i] == val(vs[i]) by {
            if i < vs.len() - 1 {
                assert(vals(vs)[i] == vals(vs.drop_last())[i]);
                assert(vs.drop_last()[i] == vs[i]);
            }
        }
    }
}

/// The test a literal pattern makes tells literals apart: two make the same test
/// exactly when they are equal.
pub proof fn law_literals_are_told_apart(a: LitView, b: LitView)
    ensures
        key_of(a) == key_of(b) <==> a == b,
{
    match (a, b) {
        (LitView::Text(s), LitView::Text(t)) => {
            if key_of(a) == key_of(b) {
                lemma_chars_injective(s, t);
            }
        },
        _ => {},
    }
}

proof fn lemma_typed(db: DbView, t: Type, v: Value)
    requires
        is_of(db, t, v),
    ensures
        has_type(db, t, val(v)),
    decreases v,
{
    match (db.resolve(t), v) {
        (Type::Tuple(l), Value::Tuple(vs)) => lemma_all_typed(db, l.seq(), vs),
        (Type::Enum(d, args), Value::Variant(e, i, vs)) => lemma_all_typed(
            db,
            db.payload_of(d, args, i as nat),
            vs,
        ),
        (Type::Record(d, args), Value::Record(e, vs)) => lemma_all_typed(
            db,
            Seq::new(db.field_count(d), |i: int| db.field_type(d, args, i as nat)),
            vs,
        ),
        _ => {
            assert(have_types(db, Seq::empty(), Seq::empty()));
        },
    }
}

proof fn lemma_all_typed(db: DbView, ts: Seq<Type>, vs: Seq<Value>)
    requires
        are_of(db, ts, vs),
    ensures
        have_types(db, ts, vals(vs)),
    decreases vs,
{
    lemma_vals(vs);
    if vs.len() > 0 {
        lemma_all_typed(db, ts.drop_last(), vs.drop_last());
        lemma_typed(db, ts.last(), vs.last());
        assert(vals(vs).drop_last() =~= vals(vs.drop_last()));
    }
}

proof fn lemma_row(s: Seq<PatternView>, rest: Row, ws: Seq<Val>)
    ensures
        row_matches(row_of(s, rest), ws) <==> {
            &&& s.len() <= ws.len()
            &&& forall|i: int|
                0 <= i < s.len() ==> cover_matches(cover_of(#[trigger] s[i]), ws[i])
            &&& row_matches(rest, ws.skip(s.len() as int))
        },
    decreases s.len(),
{
    if s.len() == 0 {
        assert(ws.skip(0) =~= ws);
    } else {
        let n = s.len() - 1;
        let head = Row::Cons(Box::new(cover_of(s.last())), Box::new(rest));
        lemma_row(s.drop_last(), head, ws);
        if n < ws.len() {
            assert(ws.skip(n)[0] == ws[n]);
            assert(ws.skip(n).skip(1) =~= ws.skip(n + 1));
        }
        assert(forall|i: int| 0 <= i < n ==> s.drop_last()[i] == s[i]);
        if row_matches(row_of(s, rest), ws) {
            assert forall|i: int| 0 <= i < s.len() implies cover_matches(
                cover_of(#[trigger] s[i]),
                ws[i],
            ) by {
                if i < n {
                    assert(cover_matches(cover_of(s.drop_last()[i]), ws[i]));
                }
            }
        }
        if s.len() <= ws.len() && (forall|i: int|
            0 <= i < s.len() ==> cover_matches(cover_of(#[trigger] s[i]), ws[i])) && row_matches(
            rest,
            ws.skip(s.len() as int),
        ) {
            assert(cover_matches(cover_of(s[n]), ws[n]));
            assert forall|i: int| 0 <= i < n implies cover_matches(
                cover_of(#[trigger] s.drop_last()[i]),
                ws[i],
            ) by {
                assert(cover_matches(cover_of(s[i]), ws[i]));
            }
            assert(row_matches(head, ws.skip(n)));
        }
    }
}

/// A value fits a built pattern exactly when coverage says that it matches.
pub proof fn law_fitting_is_matching(p: PatternView, v: Value)
    ensures
        fits(p, v) <==> cover_matches(cover_of(p), val(v)),
    decreases p,
{
    assert(row_matches(Row::Nil, Seq::<Val>::empty()));
    match p {
        PatternView::Lit(l, _) => {
            if let Value::Lit(m) = v {
                law_literals_are_told_apart(l, m);
            }
        },
        PatternView::EnumVariant(_, _, subs, _) => {
            if let Value::Variant(_, _, vs) = v {
                lemma_all_fit(subs, vs);
            }
        },
        PatternView::Tuple(subs, _) => {
            if let Value::Tuple(vs) = v {
                lemma_all_fit(subs, vs);
            }
        },
        PatternView::Record(_, subs, _) => {
            if let Value::Record(_, vs) = v {
                lemma_all_fit(subs, vs);
            }
        },
        _ => {},
    }
}

proof fn lemma_all_fit(ps: Seq<PatternView>, vs: Seq<Value>)
    ensures
        all_fit(ps, vs) <==> row_matches(row_of(ps, Row::Nil), vals(vs)),
    decreases ps,
{
    lemma_vals(vs);
    lemma_row(ps, Row::Nil, vals(vs));
    assert forall|i: int| 0 <= i < ps.len() && i < vs.len() implies (fits(#[trigger] ps[i], vs[i])
        <==> cover_matches(cover_of(ps[i]), vals(vs)[i])) by {
        law_fitting_is_matching(ps[i], vs[i]);
    }
    if row_matches(row_of(ps, Row::Nil), vals(vs)) {
        assert forall|i: int| 0 <= i < ps.len() implies fits(#[trigger] ps[i], vs[i]) by {
            assert(cover_matches(cover_of(ps[i]), vals(vs)[i]));
        }
    }
    if all_fit(ps, vs) {
        assert forall|i: int| 0 <= i < ps.len() implies cover_matches(
            cover_of(#[trigger] ps[i]),
            vals(vs)[i],
        ) by {
            assert(fits(ps[i], vs[i]));
        }
        assert(vals(vs).skip(ps.len() as int) =~= Seq::empty());
    }
}

// ---------------------------------------------------------------------------
// Building keeps the meaning
// ---------------------------------------------------------------------------

pub proof fn lemma_variant_index(db: DbView, d: EnumDefId, name: Seq<char>)
    ensures
        match db.variant_index(d, name) {
            Some(i) => {
                &&& variant_called(db, d, i, name)
                &&& forall|j: nat| #[trigger] variant_called(db, d, j, name) ==> j == i
            },
            None => forall|j: nat| !#[trigger] variant_called(db, d, j, name),
        },
{
    if let Some(e) = db.enum_def(d) {
        let all = variant_names(e);
        lemma_first_named(all, name);
        assert(all.len() == e.variants.len());
        assert forall|j: int| 0 <= j < all.len() implies all[j] == (#[trigger] e.variants[j]).name by {}
        match db.variant_index(d, name) {
            Some(i) => {
                assert(variant_called(db, d, i, name));
                assert forall|j: nat| #[trigger] variant_called(db, d, j, name) implies j == i by {
                    if j < i {
                        assert(all[j as int] != name);
                    }
                    if i < j {
                        assert(e.variants[i as int].name != name);
                    }
                }
            },
            None => {
                assert forall|j: nat| !#[trigger] variant_called(db, d, j, name) by {
                    if j < all.len() {
                        assert(all[j as int] != name);
                    }
                }
            },
        }
    }
}

pub proof fn lemma_field_index(db: DbView, d: RecordDefId, name: Seq<char>)
    ensures
        match db.field_index(d, name) {
            Some(i) => {
                &&& field_called(db, d, i, name)
                &&& forall|j: nat| #[trigger] field_called(db, d, j, name) ==> j == i
            },
            None => forall|j: nat| !#[trigger] field_called(db, d, j, name),
        },
{
    if let Some(r) = db.record_def(d) {
        let all = field_names(r);
        lemma_first_named(all, name);
        assert(all.len() == r.fields.len());
        assert forall|j: int| 0 <= j < all.len() implies all[j] == (#[trigger] r.fields[j]).name by {}
        match db.field_index(d, name) {
            Some(i) => {
                assert(field_called(db, d, i, name));
                assert forall|j: nat| #[trigger] field_called(db, d, j, name) implies j == i by {
                    if j < i {
                        assert(all[j as int] != name);
                    }
                    if i < j {
                        assert(r.fields[i as int].name != name);
                    }
                }
            },
            None => {
                assert forall|j: nat| !#[trigger] field_called(db, d, j, name) by {
                    if j < all.len() {
                        assert(all[j as int] != name);
                    }
                }
            },
        }
    }
}

proof fn lemma_build_grows(env: PatternEnv, pat: Pattern, ty: Type, diags: Seq<DiagView>)
    ensures
        build_spec(env, pat, ty, diags).1.len() >= diags.len(),
    decreases pat,
{
    match pat.kind {
        PatternKind::Variant(name, subs) => {
            if let Type::Enum(d, args) = env.db.resolve(ty) {
                if let Some(i) = env.db.variant_index(d, name.text@) {
                    lemma_subs_grow(env, subs@, env.db.payload_of(d, args, i), ty, diags);
                }
            }
        },
        PatternKind::Tuple(subs) => {
            if let Type::Tuple(els) = env.db.resolve(ty) {
                lemma_subs_grow(env, subs@, els.seq(), ty, diags);
            }
        },
        PatternKind::Record(_, fields) => {
            if let Type::Record(d, args) = env.db.resolve(ty) {
                let start = padded(Seq::empty(), env.db.field_count(d));
                lemma_fields_grow(env, fields@, d, args, start, diags);
            }
        },
        _ => {},
    }
}

proof fn lemma_subs_grow(
    env: PatternEnv,
    subs: Seq<Pattern>,
    tys: Seq<Type>,
    otherwise: Type,
    diags: Seq<DiagView>,
)
    ensures
        build_subs(env, subs, tys, otherwise, diags).1.len() >= diags.len(),
        build_subs(env, subs, tys, otherwise, diags).0.len() == subs.len(),
    decreases subs,
{
    if subs.len() > 0 {
        let before = build_subs(env, subs.drop_last(), tys, otherwise, diags).1;
        lemma_subs_grow(env, subs.drop_last(), tys, otherwise, diags);
        lemma_build_grows(env, subs.last(), component(tys, subs.len() - 1, otherwise), before);
    }
}

proof fn lemma_fields_grow(
    env: PatternEnv,
    fields: Seq<FieldPattern>,
    d: RecordDefId,
    args: TypeList,
    start: Seq<PatternView>,
    diags: Seq<DiagView>,
)
    requires
        start.len() == env.db.field_count(d),
    ensures
        build_fields(env, fields, d, args, start, diags).1.len() >= diags.len(),
        build_fields(env, fields, d, args, start, diags).0.len() == start.len(),
    decreases fields,
{
    if fields.len() > 0 {
        let before = build_fields(env, fields.drop_last(), d, args, start, diags).1;
        lemma_fields_grow(env, fields.drop_last(), d, args, start, diags);
        let field = fields.last();
        if let Some(name) = field.name {
            lemma_field_index(env.db, d, name.text@);
            if let Some(i) = env.db.field_index(d, name.text@) {
                if let Some(sub) = field.pattern {
                    lemma_build_grows(env, sub, env.db.field_type(d, args, i), before);
                }
            }
        }
    }
}

/// A built pattern fits the values that the written one accepts, and no others.
pub proof fn law_built_patterns_mean_what_is_written(
    env: PatternEnv,
    pat: Pattern,
    ty: Type,
    diags: Seq<DiagView>,
    v: Value,
)
    requires
        variants_numbered(env.db),
        is_of(env.db, ty, v),
        proper(pat),
        build_spec(env, pat, ty, diags).1.len() == diags.len(),
    ensures
        fits(build_spec(env, pat, ty, diags).0, v) <==> accepts(env.db, pat, ty, v),
    decreases pat,
{
    let db = env.db;
    match pat.kind {
        PatternKind::Name(name) => {
            if let Type::Enum(d, args) = db.resolve(ty) {
                lemma_variant_index(db, d, name.text@);
                if let Some(i) = db.variant_index(d, name.text@) {
                    let arity = db.payload_of(d, args, i).len();
                    assert(variant_called(db, d, i, name.text@));
                    assert(arity == 0);
                    if let Value::Variant(e, j, vs) = v {
                        assert(db.enums[d.0 as int].variants.len() <= u32::MAX);
                        assert(i as u32 == i);
                        lemma_are_of(db, db.payload_of(d, args, j as nat), vs);
                        if i == j {
                            assert(all_fit(padded(Seq::empty(), arity), vs));
                        } else {
                            assert(!variant_called(db, d, j as nat, name.text@));
                        }
                    }
                } else {
                    assert(!exists|i: nat| variant_called(db, d, i, name.text@));
                }
            }
        },
        PatternKind::Variant(name, subs) => {
            if let Type::Enum(d, args) = db.resolve(ty) {
                lemma_variant_index(db, d, name.text@);
                if let Some(i) = db.variant_index(d, name.text@) {
                    if let Value::Variant(e, j, vs) = v {
                        let payload = db.payload_of(d, args, i);
                        lemma_subs_grow(env, subs@, payload, ty, diags);
                        if i == j {
                            lemma_are_of(db, payload, vs);
                            lemma_subs_mean(env, subs@, payload, ty, diags, vs);
                            lemma_padded_fit(
                                build_subs(env, subs@, payload, ty, diags).0,
                                vs,
                            );
                        }
                    }
                }
            }
        },
        PatternKind::Tuple(subs) => {
            if let Type::Tuple(els) = db.resolve(ty) {
                if let Value::Tuple(vs) = v {
                    lemma_are_of(db, els.seq(), vs);
                    lemma_subs_grow(env, subs@, els.seq(), ty, diags);
                    lemma_subs_mean(env, subs@, els.seq(), ty, diags, vs);
                    lemma_padded_fit(build_subs(env, subs@, els.seq(), ty, diags).0, vs);
                }
            }
        },
        PatternKind::Record(_, fields) => {
            if let Type::Record(d, args) = db.resolve(ty) {
                if let Value::Record(e, vs) = v {
                    let start = padded(Seq::empty(), db.field_count(d));
                    let ts = Seq::new(db.field_count(d), |i: int| db.field_type(d, args, i as nat));
                    lemma_are_of(db, ts, vs);
                    lemma_fields_mean(env, fields@, d, args, start, diags, vs);
                }
            }
        },
        _ => {},
    }
}

proof fn lemma_padded_fit(ps: Seq<PatternView>, vs: Seq<Value>)
    ensures
        all_fit(padded(ps, vs.len()), vs) <==> forall|i: int|
            0 <= i < ps.len() && i < vs.len() ==> fits(#[trigger] ps[i], vs[i]),
{
    let all = padded(ps, vs.len());
    if all_fit(all, vs) {
        assert forall|i: int| 0 <= i < ps.len() && i < vs.len() implies fits(
            #[trigger] ps[i],
            vs[i],
        ) by {
            assert(fits(all[i], vs[i]));
        }
    }
    if forall|i: int| 0 <= i < ps.len() && i < vs.len() ==> fits(#[trigger] ps[i], vs[i]) {
        assert forall|i: int| 0 <= i < all.len() implies fits(#[trigger] all[i], vs[i]) by {
            if i < ps.len() {
                assert(fits(ps[i], vs[i]));
            }
        }
    }
}

proof fn lemma_subs_mean(
    env: PatternEnv,
    subs: Seq<Pattern>,
    tys: Seq<Type>,
    otherwise: Type,
    diags: Seq<DiagView>,
    vs: Seq<Value>,
)
    requires
        variants_numbered(env.db),
        tys.len() == vs.len(),
        forall|i: int| 0 <= i < vs.len() ==> is_of(env.db, tys[i], #[trigger] vs[i]),
        all_proper(subs),
        build_subs(env, subs, tys, otherwise, diags).1.len() == diags.len(),
    ensures
        build_subs(env, subs, tys, otherwise, diags).0.len() == subs.len(),
        (forall|i: int|
            0 <= i < subs.len() && i < vs.len() ==> fits(
                #[trigger] build_subs(env, subs, tys, otherwise, diags).0[i],
                vs[i],
            )) <==> accept_parts(env.db, subs, tys, vs),
    decreases subs,
{
    if subs.len() > 0 {
        let n = subs.len() - 1;
        let (built, before) = build_subs(env, subs.drop_last(), tys, otherwise, diags);
        let all = build_subs(env, subs, tys, otherwise, diags).0;
        lemma_subs_grow(env, subs.drop_last(), tys, otherwise, diags);
        lemma_build_grows(env, subs.last(), component(tys, n, otherwise), before);
        lemma_subs_mean(env, subs.drop_last(), tys, otherwise, diags, vs);
        if n < vs.len() {
            assert(is_of(env.db, tys[n], vs[n]));
            law_built_patterns_mean_what_is_written(env, subs.last(), tys[n], before, vs[n]);
        }
        assert forall|i: int| 0 <= i < n implies #[trigger] all[i] == built[i] by {}
        if forall|i: int| 0 <= i < subs.len() && i < vs.len() ==> fits(#[trigger] all[i], vs[i]) {
            assert forall|i: int| 0 <= i < n && i < vs.len() implies fits(
                #[trigger] built[i],
                vs[i],
            ) by {
                assert(fits(all[i], vs[i]));
            }
            if n < vs.len() {
                assert(fits(all[n], vs[n]));
            }
        }
        if accept_parts(env.db, subs, tys, vs) {
            assert forall|i: int| 0 <= i < subs.len() && i < vs.len() implies fits(
                #[trigger] all[i],
                vs[i],
            ) by {
                if i < n {
                    assert(fits(built[i], vs[i]));
                }
            }
        }
    }
}

/// A field that is not named is left a wildcard.
proof fn lemma_unnamed_field(
    env: PatternEnv,
    fields: Seq<FieldPattern>,
    d: RecordDefId,
    args: TypeList,
    start: Seq<PatternView>,
    diags: Seq<DiagView>,
    i: nat,
    name: Seq<char>,
)
    requires
        field_called(env.db, d, i, name),
        start.len() == env.db.field_count(d),
        !names(fields, name),
    ensures
        build_fields(env, fields, d, args, start, diags).0.len() == start.len(),
        build_fields(env, fields, d, args, start, diags).0[i as int] == start[i as int],
    decreases fields.len(),
{
    lemma_fields_grow(env, fields, d, args, start, diags);
    if fields.len() > 0 {
        let last = fields.len() - 1;
        if names(fields.drop_last(), name) {
            let k = choose|k: int|
                0 <= k < fields.drop_last().len() && (#[trigger] fields.drop_last()[k]).name is Some
                    && fields.drop_last()[k].name->0.text@ == name;
            assert(fields[k] == fields.drop_last()[k]);
            assert(names(fields, name));
        }
        lemma_unnamed_field(env, fields.drop_last(), d, args, start, diags, i, name);
        if let Some(other) = fields.last().name {
            assert(fields[last].name is Some);
            assert(other.text@ != name);
            lemma_field_index(env.db, d, other.text@);
            if let Some(j) = env.db.field_index(d, other.text@) {
                assert(field_called(env.db, d, j, other.text@));
                assert(j != i);
            }
        }
    }
}

proof fn lemma_fields_mean(
    env: PatternEnv,
    fields: Seq<FieldPattern>,
    d: RecordDefId,
    args: TypeList,
    start: Seq<PatternView>,
    diags: Seq<DiagView>,
    vs: Seq<Value>,
)
    requires
        variants_numbered(env.db),
        start == padded(Seq::empty(), env.db.field_count(d)),
        vs.len() == start.len(),
        forall|i: int|
            0 <= i < vs.len() ==> is_of(env.db, env.db.field_type(d, args, i as nat), #[trigger] vs[i]),
        fields_proper(fields),
        build_fields(env, fields, d, args, start, diags).1.len() == diags.len(),
    ensures
        all_fit(build_fields(env, fields, d, args, start, diags).0, vs) <==> accept_fields(
            env.db,
            fields,
            d,
            args,
            vs,
        ),
    decreases fields,
{
    let db = env.db;
    lemma_fields_grow(env, fields, d, args, start, diags);
    let all = build_fields(env, fields, d, args, start, diags).0;
    if fields.len() == 0 {
        assert forall|i: int| 0 <= i < all.len() implies fits(#[trigger] all[i], vs[i]) by {}
    } else {
        let (built, before) = build_fields(env, fields.drop_last(), d, args, start, diags);
        lemma_fields_grow(env, fields.drop_last(), d, args, start, diags);
        let field = fields.last();
        if let Some(name) = field.name {
            lemma_field_index(db, d, name.text@);
            if let Some(i) = db.field_index(d, name.text@) {
                let k = i as int;
                let ty = db.field_type(d, args, i);
                lemma_unnamed_field(
                    env,
                    fields.drop_last(),
                    d,
                    args,
                    start,
                    diags,
                    i,
                    name.text@,
                );
                assert(is_of(db, ty, vs[k]));
                if let Some(sub) = field.pattern {
                    lemma_build_grows(env, sub, ty, before);
                    lemma_fields_mean(env, fields.drop_last(), d, args, start, diags, vs);
                    law_built_patterns_mean_what_is_written(env, sub, ty, before, vs[k]);
                    assert(field_called(db, d, i, name.text@));
                } else {
                    lemma_fields_mean(env, fields.drop_last(), d, args, start, diags, vs);
                }
                if all_fit(all, vs) {
                    assert(fits(all[k], vs[k]));
                    assert forall|j: int| 0 <= j < built.len() implies fits(
                        #[trigger] built[j],
                        vs[j],
                    ) by {
                        if j != k {
                            assert(all[j] == built[j]);
                            assert(fits(all[j], vs[j]));
                        }
                    }
                }
                if all_fit(built, vs) && fits(all[k], vs[k]) {
                    assert forall|j: int| 0 <= j < all.len() implies fits(
                        #[trigger] all[j],
                        vs[j],
                    ) by {
                        if j != k {
                            assert(all[j] == built[j]);
                            assert(fits(built[j], vs[j]));
                        }
                    }
                }
            } else {
                lemma_fields_mean(env, fields.drop_last(), d, args, start, diags, vs);
            }
        } else {
            lemma_fields_mean(env, fields.drop_last(), d, args, start, diags, vs);
        }
    }
}

// ---------------------------------------------------------------------------
// Matches
// ---------------------------------------------------------------------------

/// Whether an arm accepts a value; one without a pattern accepts everything.
pub open spec fn arm_accepts(db: DbView, arm: MatchArm, ty: Type, v: Value) -> bool {
    match arm.pattern {
        Some(pat) => accepts(db, pat, ty, v),
        None => true,
    }
}

/// Whether nothing is wrong with an arm's own pattern.
pub open spec fn arm_is_sound(env: PatternEnv, arm: MatchArm, ty: Type) -> bool {
    match arm.pattern {
        Some(pat) => proper(pat) && build_spec(env, pat, ty, Seq::empty()).1.len() == 0,
        None => true,
    }
}

proof fn lemma_arm(env: PatternEnv, arm: MatchArm, ty: Type, v: Value)
    requires
        variants_numbered(env.db),
        is_of(env.db, ty, v),
        arm_is_sound(env, arm, ty),
    ensures
        arm_matches(env, arm, ty, val(v)) <==> arm_accepts(env.db, arm, ty, v),
{
    if let Some(pat) = arm.pattern {
        law_built_patterns_mean_what_is_written(env, pat, ty, Seq::empty(), v);
        law_fitting_is_matching(build_spec(env, pat, ty, Seq::empty()).0, v);
    }
}

/// A `match` that is not reported to leave something out has an arm that accepts
/// each value of the matched type.
pub proof fn law_every_value_is_accepted(
    env: PatternEnv,
    arms: Seq<MatchArm>,
    ty: Type,
    at: FileSpan,
    v: Value,
)
    requires
        variants_numbered(env.db),
        is_of(env.db, ty, v),
        forall|i: int| 0 <= i < arms.len() ==> arm_is_sound(env, #[trigger] arms[i], ty),
        forall|i: int|
            0 <= i < match_reports(env, arms, ty, at).len() ==> (#[trigger] match_reports(
                env,
                arms,
                ty,
                at,
            )[i]).code != DiagCode::NonExhaustiveMatch,
    ensures
        exists|i: int| 0 <= i < arms.len() && arm_accepts(env.db, #[trigger] arms[i], ty, v),
{
    lemma_typed(env.db, ty, v);
    law_unreported_matches_leave_nothing_out(env, arms, ty, at, val(v));
    let i = choose|i: int| 0 <= i < arms.len() && #[trigger] arm_matches(env, arms[i], ty, val(v));
    lemma_arm(env, arms[i], ty, v);
}

/// An arm that accepts a value which no arm before it accepts is not reported as
/// one that can never run.
pub proof fn law_arms_that_run_are_not_reported(
    env: PatternEnv,
    arms: Seq<MatchArm>,
    ty: Type,
    v: Value,
)
    requires
        arms.len() > 0,
        variants_numbered(env.db),
        is_of(env.db, ty, v),
        forall|i: int| 0 <= i < arms.len() ==> arm_is_sound(env, #[trigger] arms[i], ty),
        arm_accepts(env.db, arms.last(), ty, v),
        forall|i: int| 0 <= i < arms.len() - 1 ==> !arm_accepts(env.db, #[trigger] arms[i], ty, v),
    ensures
        !last_is_reported(env, arms, ty),
{
    lemma_typed(env.db, ty, v);
    assert(arms.last() == arms[arms.len() - 1]);
    lemma_arm(env, arms.last(), ty, v);
    if last_is_reported(env, arms, ty) {
        law_reported_arms_never_run(env, arms, ty, val(v));
        let i = choose|i: int|
            0 <= i < arms.len() - 1 && #[trigger] arm_matches(env, arms[i], ty, val(v));
        lemma_arm(env, arms[i], ty, v);
    }
}

/// The value a literal token denotes.
pub open spec fn denoted(tok: LitToken) -> Option<LitView> {
    match tok {
        LitToken::Int(Some(n), _) => Some(LitView::Int(n)),
        LitToken::Float(b) => Some(LitView::Float(b)),
        LitToken::Text(s) => Some(LitView::Text(s@)),
        LitToken::Char(Some(c)) => Some(LitView::Char(c)),
        LitToken::True => Some(LitView::Bool(true)),
        LitToken::False => Some(LitView::Bool(false)),
        _ => None,
    }
}

/// The literal an arm is for, when it is for one.
pub open spec fn arm_literal(arm: MatchArm) -> Option<LitView> {
    match arm.pattern {
        Some(pat) => match pat.kind {
            PatternKind::Literal(Some(tok)) => denoted(tok),
            _ => None,
        },
        None => None,
    }
}

/// An arm for a literal that no arm before it is for is never reported, where the
/// arms before it are for literals too.
pub proof fn law_new_literals_are_not_reported(
    env: PatternEnv,
    arms: Seq<MatchArm>,
    ty: Type,
    l: LitView,
)
    requires
        arms.len() > 0,
        variants_numbered(env.db),
        is_of(env.db, ty, Value::Lit(l)),
        arm_literal(arms.last()) == Some(l),
        forall|i: int|
            0 <= i < arms.len() - 1 ==> arm_literal(#[trigger] arms[i]) is Some && arm_literal(
                arms[i],
            ) != Some(l),
    ensures
        !last_is_reported(env, arms, ty),
{
    let v = Value::Lit(l);
    assert forall|i: int| 0 <= i < arms.len() implies arm_is_sound(env, #[trigger] arms[i], ty) by {
        assert(arm_literal(arms[i]) is Some);
    }
    assert forall|i: int| 0 <= i < arms.len() - 1 implies !arm_accepts(
        env.db,
        #[trigger] arms[i],
        ty,
        v,
    ) by {
        assert(arm_literal(arms[i]) is Some);
    }
    law_arms_that_run_are_not_reported(env, arms, ty, v);
}

/// A pattern that tests nothing fits every value of its type.
pub proof fn law_irrefutable_patterns_fit_everything(
    env: PatternEnv,
    pat: Pattern,
    ty: Type,
    diags: Seq<DiagView>,
    v: Value,
)
    requires
        variants_numbered(env.db),
        is_of(env.db, ty, v),
        irrefutable(build_spec(env, pat, ty, diags).0),
    ensures
        fits(build_spec(env, pat, ty, diags).0, v),
    decreases pat,
{
    let db = env.db;
    match pat.kind {
        PatternKind::Tuple(subs) => {
            if let Type::Tuple(els) = db.resolve(ty) {
                if let Value::Tuple(vs) = v {
                    let (built, _) = build_subs(env, subs@, els.seq(), ty, diags);
                    let all = padded(built, els.seq().len());
                    lemma_are_of(db, els.seq(), vs);
                    lemma_irrefutable(all);
                    lemma_subs_grow(env, subs@, els.seq(), ty, diags);
                    assert forall|i: int| 0 <= i < all.len() implies fits(#[trigger] all[i], vs[i]) by {
                        if i < built.len() {
                            assert(irrefutable(all[i]));
                            lemma_irrefutable_sub(env, subs@, els.seq(), ty, diags, i, vs[i]);
                        }
                    }
                }
            }
        },
        PatternKind::Record(_, fields) => {
            if let Type::Record(d, args) = db.resolve(ty) {
                if let Value::Record(_, vs) = v {
                    let start = padded(Seq::empty(), db.field_count(d));
                    let all = build_fields(env, fields@, d, args, start, diags).0;
                    let ts = Seq::new(db.field_count(d), |i: int| db.field_type(d, args, i as nat));
                    lemma_are_of(db, ts, vs);
                    lemma_irrefutable(all);
                    lemma_fields_grow(env, fields@, d, args, start, diags);
                    assert forall|i: int| 0 <= i < all.len() implies fits(#[trigger] all[i], vs[i]) by {
                        assert(irrefutable(all[i]));
                        lemma_irrefutable_field(env, fields@, d, args, start, diags, i, vs[i]);
                    }
                }
            }
        },
        _ => {},
    }
}

proof fn lemma_irrefutable(s: Seq<PatternView>)
    requires
        all_irrefutable(s),
    ensures
        forall|i: int| 0 <= i < s.len() ==> irrefutable(#[trigger] s[i]),
    decreases s.len(),
{
    if s.len() > 0 {
        lemma_irrefutable(s.drop_last());
        assert forall|i: int| 0 <= i < s.len() implies irrefutable(#[trigger] s[i]) by {
            if i < s.len() - 1 {
                assert(s.drop_last()[i] == s[i]);
            }
        }
    }
}

proof fn lemma_irrefutable_sub(
    env: PatternEnv,
    subs: Seq<Pattern>,
    tys: Seq<Type>,
    otherwise: Type,
    diags: Seq<DiagView>,
    i: int,
    v: Value,
)
    requires
        variants_numbered(env.db),
        0 <= i < subs.len(),
        i < tys.len(),
        is_of(env.db, tys[i], v),
        build_subs(env, subs, tys, otherwise, diags).0.len() == subs.len(),
        irrefutable(build_subs(env, subs, tys, otherwise, diags).0[i]),
    ensures
        fits(build_subs(env, subs, tys, otherwise, diags).0[i], v),
    decreases subs,
{
    let (built, before) = build_subs(env, subs.drop_last(), tys, otherwise, diags);
    lemma_subs_grow(env, subs.drop_last(), tys, otherwise, diags);
    if i < subs.len() - 1 {
        lemma_irrefutable_sub(env, subs.drop_last(), tys, otherwise, diags, i, v);
    } else {
        law_irrefutable_patterns_fit_everything(env, subs.last(), tys[i], before, v);
    }
}

proof fn lemma_irrefutable_field(
    env: PatternEnv,
    fields: Seq<FieldPattern>,
    d: RecordDefId,
    args: TypeList,
    start: Seq<PatternView>,
    diags: Seq<DiagView>,
    i: int,
    v: Value,
)
    requires
        variants_numbered(env.db),
        start == padded(Seq::empty(), env.db.field_count(d)),
        0 <= i < start.len(),
        is_of(env.db, env.db.field_type(d, args, i as nat), v),
        irrefutable(build_fields(env, fields, d, args, start, diags).0[i]),
    ensures
        fits(build_fields(env, fields, d, args, start, diags).0[i], v),
    decreases fields,
{
    if fields.len() > 0 {
        let (built, before) = build_fields(env, fields.drop_last(), d, args, start, diags);
        lemma_fields_grow(env, fields.drop_last(), d, args, start, diags);
        let field = fields.last();
        if let Some(name) = field.name {
            lemma_field_index(env.db, d, name.text@);
            if let Some(k) = env.db.field_index(d, name.text@) {
                if k != i {
                    lemma_irrefutable_field(env, fields.drop_last(), d, args, start, diags, i, v);
                } else if let Some(sub) = field.pattern {
                    law_irrefutable_patterns_fit_everything(
                        env,
                        sub,
                        env.db.field_type(d, args, k),
                        before,
                        v,
                    );
                }
            } else {
                lemma_irrefutable_field(env, fields.drop_last(), d, args, start, diags, i, v);
            }
        } else {
            lemma_irrefutable_field(env, fields.drop_last(), d, args, start, diags, i, v);
        }
    }
}

} // verus!
