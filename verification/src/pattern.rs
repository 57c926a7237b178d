//! Building a [`TypedPattern`] from a source pattern, and checking the patterns
//! that bind.
//!
//! This is the one place a pattern becomes the shape the compiler reasons about:
//! which variant it names, which payload slot each sub-pattern fills, which
//! symbol a bare name binds.
use vstd::prelude::*;
use vstd::string::*;

use crate::ast::{
    Expr, ExprKind, FieldPattern, Ident, LitToken, Param, Pattern, PatternKind, SourceFile,
};
use crate::descend::{descendants, file_descendants, visits, Seen, Visit};
use crate::name_table::{lookup, NameTable};
use crate::source::{
    decimal, decimal_digits, diag_views, error_at, push_diag, reversed, suggesting, text, text2, text3, text5,
    DiagCode, DiagView, Diagnostic, FileId, FileSpan, Span,
};
use crate::symbol::{SymbolId, SymbolView};
use crate::tables::{at, SpanMap};
use crate::tree::{
    lemma_pattern_views_index, pattern_view, pattern_views, refutable_reason,
    refutable_word, Lit, LitView, PatternView, TypedPattern,
};
use crate::typedb::{field_names, lemma_first_named, render_type, variant_names, DbView, TypeDb};
use crate::types::{EnumDefId, RecordDefId, ScalarType, Type, TypeList};

verus! {

// ---------------------------------------------------------------------------
// Reports
// ---------------------------------------------------------------------------

/// `t` as reports write it.
pub open spec fn shown(db: DbView, t: Type) -> Seq<char> {
    render_type(db, t)
}

/// A literal that no `Int` can hold.
pub open spec fn out_of_range(at: FileSpan, digits: Seq<char>) -> DiagView {
    error_at(
        at,
        DiagCode::IntLiteralOutOfRange,
        "integer literal `"@ + digits + "` does not fit in `Int`"@,
    )
}

pub fn int_literal_out_of_range(at: FileSpan, digits: &String) -> (r: Diagnostic)
    ensures
        r@ == out_of_range(at, digits@),
{
    Diagnostic::error(
        at,
        DiagCode::IntLiteralOutOfRange,
        text3("integer literal `", digits, "` does not fit in `Int`"),
    )
}

/// A pattern whose shape the type cannot take.
pub open spec fn wrong_shape(at: FileSpan, head: Seq<char>, ty: Seq<char>) -> DiagView {
    error_at(
        at,
        DiagCode::NotAPatternForType,
        "`"@ + head + "` is not a pattern for `"@ + ty + "`"@,
    )
}

/// A variant the enum does not have.
pub open spec fn no_variant(at: FileSpan, ty: Seq<char>, name: Seq<char>) -> DiagView {
    error_at(
        at,
        DiagCode::UnknownEnumVariant,
        "`"@ + ty + "` has no variant `"@ + name + "`"@,
    )
}

/// A pattern that names a different number of values than the variant holds.
pub open spec fn wrong_arity(
    at: FileSpan,
    variant: Seq<char>,
    ty: Seq<char>,
    want: nat,
    got: nat,
) -> DiagView {
    error_at(
        at,
        DiagCode::PayloadArityMismatch,
        "`"@ + variant + "` in `"@ + ty + "` holds "@ + (decimal_digits(want)
            + " value(s), but this pattern names "@ + decimal_digits(got)),
    )
}

/// `n` wildcards, separated by commas.
pub open spec fn wildcards(n: nat) -> Seq<char>
    decreases n,
{
    if n == 0 {
        Seq::empty()
    } else if n == 1 {
        "_"@
    } else {
        wildcards((n - 1) as nat) + ", _"@
    }
}

fn wildcard_text(n: usize) -> (r: String)
    ensures
        r@ == wildcards(n as nat),
    decreases n,
{
    if n == 0 {
        let r = String::new();
        assert(r@ =~= wildcards(0));
        r
    } else if n == 1 {
        text("_")
    } else {
        text2(&wildcard_text(n - 1), ", _")
    }
}

// ---------------------------------------------------------------------------
// What a pattern builds to
// ---------------------------------------------------------------------------

/// What building a pattern depends on.
pub ghost struct PatternEnv {
    pub file: FileId,
    pub db: DbView,
    pub decls: Map<Span, SymbolId>,
}

/// A built pattern, and the reports so far.
pub type Built = (PatternView, Seq<DiagView>);

/// The value of a literal token, if it has one.
pub open spec fn lit_value(tok: LitToken) -> Option<LitView> {
    match tok {
        LitToken::Int(v, _) => Some(
            LitView::Int(
                match v {
                    Some(n) => n,
                    None => 0,
                },
            ),
        ),
        LitToken::Float(b) => Some(LitView::Float(b)),
        LitToken::Text(s) => Some(LitView::Text(s@)),
        LitToken::Char(c) => Some(
            LitView::Char(
                match c {
                    Some(n) => n,
                    None => 0,
                },
            ),
        ),
        LitToken::True => Some(LitView::Bool(true)),
        LitToken::False => Some(LitView::Bool(false)),
        LitToken::Template => None,
        LitToken::Other => None,
    }
}

/// A literal's own type, whatever it is matched against.
pub open spec fn lit_type(v: LitView) -> Type {
    match v {
        LitView::Int(_) => Type::Scalar(ScalarType::Int),
        LitView::Float(_) => Type::Scalar(ScalarType::Float),
        LitView::Text(_) => Type::Scalar(ScalarType::Text),
        LitView::Bool(_) => Type::Scalar(ScalarType::Bool),
        LitView::Char(_) => Type::Scalar(ScalarType::Char),
        LitView::Unit => Type::Unit,
    }
}

/// `s`, cut or padded with wildcards to `n` patterns.
pub open spec fn padded(s: Seq<PatternView>, n: nat) -> Seq<PatternView> {
    Seq::new(
        n,
        |i: int|
            if i < s.len() {
                s[i]
            } else {
                PatternView::Wildcard
            },
    )
}

/// A name that binds: the symbol declared at its own range.
pub open spec fn bind_spec(env: PatternEnv, name: Ident, ty: Type) -> PatternView {
    match at(env.decls, name.range) {
        Some(symbol) => PatternView::Bind(symbol, name.text@, ty, name.range.pair()),
        None => PatternView::Wildcard,
    }
}

/// A bare name against `ty`: the variant of that name where the type is an enum
/// that has one, else a binding.
pub open spec fn build_name(
    env: PatternEnv,
    name: Ident,
    ty: Type,
    diags: Seq<DiagView>,
) -> Built {
    let resolved = env.db.resolve(ty);
    match resolved {
        Type::Enum(def, args) => match env.db.variant_index(def, name.text@) {
            Some(i) => {
                let arity = env.db.payload_of(def, args, i).len();
                let at = FileSpan { file: env.file, span: name.range };
                (
                    PatternView::EnumVariant(def, i as u32, padded(Seq::empty(), arity), ty),
                    if arity > 0 {
                        diags.push(
                            suggesting(
                                wrong_arity(at, name.text@, shown(env.db, resolved), arity, 0),
                                at,
                                name.text@ + "("@ + wildcards(arity) + ")"@,
                                "name the payload, or `_` for each slot you do not need"@,
                            ),
                        )
                    } else {
                        diags
                    },
                )
            },
            None => (bind_spec(env, name, ty), diags),
        },
        _ => (bind_spec(env, name, ty), diags),
    }
}

/// The type for sub-pattern `i`.
pub open spec fn component(tys: Seq<Type>, i: int, otherwise: Type) -> Type {
    if 0 <= i < tys.len() {
        tys[i]
    } else {
        otherwise
    }
}

pub open spec fn record_head(head: Option<Ident>) -> Seq<char> {
    match head {
        Some(n) => n.text@ + " { … }"@,
        None => "{ … }"@,
    }
}

/// `pat` built against `ty`.
///
/// A composite has exactly one sub-pattern per payload slot, element or declared
/// field: what the source does not name is a wildcard, and what it names beyond
/// them is built, for what there is to report inside it, and then dropped.
pub open spec fn build_spec(
    env: PatternEnv,
    pat: Pattern,
    ty: Type,
    diags: Seq<DiagView>,
) -> Built
    decreases pat,
{
    let resolved = env.db.resolve(ty);
    let here = FileSpan { file: env.file, span: pat.range };
    match pat.kind {
        PatternKind::Wildcard => (PatternView::Wildcard, diags),
        PatternKind::Literal(tok) => match tok {
            Some(t) => match lit_value(t) {
                Some(v) => (
                    PatternView::Lit(v, lit_type(v)),
                    match t {
                        LitToken::Int(None, digits) => diags.push(out_of_range(here, digits@)),
                        _ => diags,
                    },
                ),
                None => (PatternView::Wildcard, diags),
            },
            None => (PatternView::Wildcard, diags),
        },
        PatternKind::Name(name) => build_name(env, name, ty, diags),
        PatternKind::Variant(name, subs) => {
            let at = FileSpan { file: env.file, span: name.range };
            match resolved {
                Type::Enum(def, args) => match env.db.variant_index(def, name.text@) {
                    Some(i) => {
                        let payload = env.db.payload_of(def, args, i);
                        let (built, after) = build_subs(env, subs@, payload, ty, diags);
                        (
                            PatternView::EnumVariant(
                                def,
                                i as u32,
                                padded(built, payload.len()),
                                ty,
                            ),
                            if subs@.len() > payload.len() {
                                after.push(
                                    wrong_arity(
                                        at,
                                        name.text@,
                                        shown(env.db, resolved),
                                        payload.len(),
                                        subs@.len(),
                                    ),
                                )
                            } else {
                                after
                            },
                        )
                    },
                    None => (
                        PatternView::Wildcard,
                        diags.push(no_variant(at, shown(env.db, resolved), name.text@)),
                    ),
                },
                Type::Var(_) => (PatternView::Wildcard, diags),
                _ => (
                    PatternView::Wildcard,
                    diags.push(wrong_shape(at, name.text@ + "(…)"@, shown(env.db, resolved))),
                ),
            }
        },
        PatternKind::Tuple(subs) => match resolved {
            Type::Tuple(els) => {
                let (built, after) = build_subs(env, subs@, els.seq(), ty, diags);
                (PatternView::Tuple(padded(built, els.seq().len()), ty), after)
            },
            Type::Var(_) => (PatternView::Wildcard, diags),
            _ => (
                PatternView::Wildcard,
                diags.push(wrong_shape(here, "(…)"@, shown(env.db, resolved))),
            ),
        },
        PatternKind::Record(head, fields) => match resolved {
            Type::Record(def, args) => {
                let start = padded(Seq::empty(), env.db.field_count(def));
                let (built, after) = build_fields(env, fields@, def, args, start, diags);
                (PatternView::Record(def, built, ty), after)
            },
            Type::Var(_) => (PatternView::Wildcard, diags),
            _ => (
                PatternView::Wildcard,
                diags.push(wrong_shape(here, record_head(head), shown(env.db, resolved))),
            ),
        },
    }
}

/// The sub-patterns `subs` built in order, each against its component of `tys`.
pub open spec fn build_subs(
    env: PatternEnv,
    subs: Seq<Pattern>,
    tys: Seq<Type>,
    otherwise: Type,
    diags: Seq<DiagView>,
) -> (Seq<PatternView>, Seq<DiagView>)
    decreases subs,
{
    if subs.len() == 0 {
        (Seq::empty(), diags)
    } else {
        let (built, before) = build_subs(env, subs.drop_last(), tys, otherwise, diags);
        let (last, after) = build_spec(
            env,
            subs.last(),
            component(tys, subs.len() - 1, otherwise),
            before,
        );
        (built.push(last), after)
    }
}

/// `start` with each named field's pattern in its field's place. A field the
/// record does not have is skipped.
pub open spec fn build_fields(
    env: PatternEnv,
    fields: Seq<FieldPattern>,
    def: RecordDefId,
    args: TypeList,
    start: Seq<PatternView>,
    diags: Seq<DiagView>,
) -> (Seq<PatternView>, Seq<DiagView>)
    decreases fields,
{
    if fields.len() == 0 {
        (start, diags)
    } else {
        let (built, before) = build_fields(env, fields.drop_last(), def, args, start, diags);
        let field = fields.last();
        match field.name {
            Some(name) => match env.db.field_index(def, name.text@) {
                Some(i) => {
                    let ty = env.db.field_type(def, args, i);
                    match field.pattern {
                        Some(sub) => {
                            let (p, after) = build_spec(env, sub, ty, before);
                            (built.update(i as int, p), after)
                        },
                        None => (built.update(i as int, bind_spec(env, name, ty)), before),
                    }
                },
                None => (built, before),
            },
            None => (built, before),
        }
    }
}

/// Everything building a pattern needs.
pub struct PatternBuilder<'a> {
    pub file: FileId,
    pub db: &'a TypeDb,
    /// The symbol declared at each range. A bare name binds the symbol declared
    /// at its own range, which tells two shadowed bindings apart.
    pub decls: &'a SpanMap<SymbolId>,
}

impl<'a> PatternBuilder<'a> {
    pub open spec fn env(self) -> PatternEnv {
        PatternEnv { file: self.file, db: self.db@, decls: self.decls@ }
    }

    /// Builds a pattern against the type it is matched with.
    pub fn build(&self, pat: &Pattern, ty: &Type, diags: &mut Vec<Diagnostic>) -> (r: TypedPattern)
        ensures
            (pattern_view(r), diag_views(final(diags)@)) == build_spec(
                self.env(),
                *pat,
                *ty,
                diag_views(old(diags)@),
            ),
        decreases pat,
    {
        let resolved = self.db.deep_resolve(ty);
        let here = FileSpan::new(self.file, pat.range);
        match &pat.kind {
            PatternKind::Wildcard => TypedPattern::Wildcard,
            PatternKind::Literal(tok) => {
                let Some(t) = tok else {
                    return TypedPattern::Wildcard;
                };
                self.build_literal(t, here, diags)
            },
            PatternKind::Name(name) => self.build_bare_name(name, ty, diags),
            PatternKind::Variant(name, subs) => {
                let at = FileSpan::new(self.file, name.range);
                match &resolved {
                    Type::Enum(def, args) => {
                        let Some(idx) = self.db.variant_index(*def, &name.text) else {
                            let rendered = self.db.render(&resolved);
                            push_diag(
                                diags,
                                Diagnostic::error(
                                    at,
                                    DiagCode::UnknownEnumVariant,
                                    text5("`", &rendered, "` has no variant `", &name.text, "`"),
                                ),
                            );
                            return TypedPattern::Wildcard;
                        };
                        let payload = self.db.payload_of(*def, args, idx);
                        let ghost d0 = diag_views(diags@);
                        let mut subpatterns: Vec<TypedPattern> = Vec::new();
                        let mut i: usize = 0;
                        assert(subs@.take(0) =~= Seq::empty());
                        assert(pattern_views(subpatterns@) =~= Seq::empty());
                        while i < subs.len()
                            invariant
                                i <= subs@.len(),
                                (pattern_views(subpatterns@), diag_views(diags@)) == build_subs(
                                    self.env(),
                                    subs@.take(i as int),
                                    payload@,
                                    *ty,
                                    d0,
                                ),
                                pat.kind matches PatternKind::Variant(n, s) && s == *subs,
                            decreases subs@.len() - i,
                        {
                            assert(subs@.take(i + 1).drop_last() =~= subs@.take(i as int));
                            let sub = if i < payload.len() {
                                self.build(&subs[i], &payload[i], diags)
                            } else {
                                self.build(&subs[i], ty, diags)
                            };
                            let ghost before = subpatterns@;
                            subpatterns.push(sub);
                            assert(subpatterns@.drop_last() =~= before);
                            i += 1;
                        }
                        assert(subs@.take(i as int) =~= subs@);
                        if subs.len() > payload.len() {
                            let rendered = self.db.render(&resolved);
                            push_diag(
                                diags,
                                arity_diag(at, &name.text, &rendered, payload.len(), subs.len()),
                            );
                        }
                        resize(&mut subpatterns, payload.len());
                        TypedPattern::EnumVariant {
                            enum_def_id: *def,
                            variant_idx: idx as u32,
                            subpatterns,
                            ty: ty.dup(),
                        }
                    },
                    Type::Var(_) => TypedPattern::Wildcard,
                    _ => {
                        let rendered = self.db.render(&resolved);
                        let head = text2(&name.text, "(…)");
                        push_diag(diags, shape_diag(at, &head, &rendered));
                        TypedPattern::Wildcard
                    },
                }
            },
            PatternKind::Tuple(subs) => match &resolved {
                Type::Tuple(els) => {
                    let elements = els.to_vec();
                    let ghost d0 = diag_views(diags@);
                    let mut subpatterns: Vec<TypedPattern> = Vec::new();
                    let mut i: usize = 0;
                    assert(subs@.take(0) =~= Seq::empty());
                    assert(pattern_views(subpatterns@) =~= Seq::empty());
                    while i < subs.len()
                        invariant
                            i <= subs@.len(),
                            (pattern_views(subpatterns@), diag_views(diags@)) == build_subs(
                                self.env(),
                                subs@.take(i as int),
                                elements@,
                                *ty,
                                d0,
                            ),
                            pat.kind matches PatternKind::Tuple(s) && s == *subs,
                        decreases subs@.len() - i,
                    {
                        assert(subs@.take(i + 1).drop_last() =~= subs@.take(i as int));
                        let sub = if i < elements.len() {
                            self.build(&subs[i], &elements[i], diags)
                        } else {
                            self.build(&subs[i], ty, diags)
                        };
                        let ghost before = subpatterns@;
                        subpatterns.push(sub);
                        assert(subpatterns@.drop_last() =~= before);
                        i += 1;
                    }
                    assert(subs@.take(i as int) =~= subs@);
                    resize(&mut subpatterns, elements.len());
                    TypedPattern::Tuple { subpatterns, ty: ty.dup() }
                },
                Type::Var(_) => TypedPattern::Wildcard,
                _ => {
                    let rendered = self.db.render(&resolved);
                    push_diag(diags, shape_diag(here, "(…)", &rendered));
                    TypedPattern::Wildcard
                },
            },
            PatternKind::Record(head, fields) => match &resolved {
                Type::Record(def, args) => {
                    let ghost d0 = diag_views(diags@);
                    let mut subpatterns: Vec<TypedPattern> = Vec::new();
                    resize(&mut subpatterns, self.db.field_count(*def));
                    let ghost start = padded(Seq::empty(), self.db@.field_count(*def));
                    let mut i: usize = 0;
                    assert(fields@.take(0) =~= Seq::empty());
                    while i < fields.len()
                        invariant
                            i <= fields@.len(),
                            start == padded(Seq::empty(), self.db@.field_count(*def)),
                            (pattern_views(subpatterns@), diag_views(diags@)) == build_fields(
                                self.env(),
                                fields@.take(i as int),
                                *def,
                                *args,
                                start,
                                d0,
                            ),
                            subpatterns@.len() == self.db@.field_count(*def),
                            pat.kind matches PatternKind::Record(h, f) && f == *fields,
                        decreases fields@.len() - i,
                    {
                        assert(fields@.take(i + 1).drop_last() =~= fields@.take(i as int));
                        let field = &fields[i];
                        assert(fields@.take(i + 1).last() == *field);
                        if let Some(name) = &field.name {
                            if let Some(idx) = self.db.field_index(*def, &name.text) {
                                let field_ty = self.db.field_type(*def, args, idx);
                                let sub = match &field.pattern {
                                    Some(sub) => self.build(sub, &field_ty, diags),
                                    None => self.bind(name, &field_ty),
                                };
                                let ghost before = subpatterns@;
                                subpatterns.set(idx, sub);
                                proof {
                                    lemma_views_update(before, idx as int, sub);
                                }
                            }
                        }
                        i += 1;
                    }
                    assert(fields@.take(i as int) =~= fields@);
                    TypedPattern::Record { record_def_id: *def, subpatterns, ty: ty.dup() }
                },
                Type::Var(_) => TypedPattern::Wildcard,
                _ => {
                    let rendered = self.db.render(&resolved);
                    let shape = match head {
                        Some(n) => text2(&n.text, " { … }"),
                        None => text("{ … }"),
                    };
                    push_diag(diags, shape_diag(here, &shape, &rendered));
                    TypedPattern::Wildcard
                },
            },
        }
    }

    fn build_literal(&self, t: &LitToken, here: FileSpan, diags: &mut Vec<Diagnostic>) -> (r:
        TypedPattern)
        ensures
            pattern_view(r) == (match lit_value(*t) {
                Some(v) => PatternView::Lit(v, lit_type(v)),
                None => PatternView::Wildcard,
            }),
            diag_views(final(diags)@) == (match *t {
                LitToken::Int(None, digits) => diag_views(old(diags)@).push(
                    out_of_range(here, digits@),
                ),
                _ => diag_views(old(diags)@),
            }),
    {
        match t {
            LitToken::Int(v, digits) => {
                let n: i64 = match v {
                    Some(n) => *n,
                    None => {
                        push_diag(diags, int_literal_out_of_range(here, digits));
                        0
                    },
                };
                TypedPattern::Lit { value: Lit::Int(n), ty: Type::Scalar(ScalarType::Int) }
            },
            LitToken::Float(b) => TypedPattern::Lit {
                value: Lit::Float(*b),
                ty: Type::Scalar(ScalarType::Float),
            },
            LitToken::Text(s) => TypedPattern::Lit {
                value: Lit::Text(s.clone()),
                ty: Type::Scalar(ScalarType::Text),
            },
            LitToken::Char(c) => {
                let n: u32 = match c {
                    Some(n) => *n,
                    None => 0,
                };
                TypedPattern::Lit { value: Lit::Char(n), ty: Type::Scalar(ScalarType::Char) }
            },
            LitToken::True => TypedPattern::Lit {
                value: Lit::Bool(true),
                ty: Type::Scalar(ScalarType::Bool),
            },
            LitToken::False => TypedPattern::Lit {
                value: Lit::Bool(false),
                ty: Type::Scalar(ScalarType::Bool),
            },
            LitToken::Template | LitToken::Other => TypedPattern::Wildcard,
        }
    }

    fn bind(&self, name: &Ident, ty: &Type) -> (r: TypedPattern)
        ensures
            pattern_view(r) == bind_spec(self.env(), *name, *ty),
    {
        match self.decls.get(name.range) {
            Some(symbol) => TypedPattern::Bind {
                symbol: *symbol,
                name: name.text.clone(),
                ty: ty.dup(),
                span: name.range.to_pair(),
            },
            None => TypedPattern::Wildcard,
        }
    }

    fn build_bare_name(&self, name: &Ident, ty: &Type, diags: &mut Vec<Diagnostic>) -> (r:
        TypedPattern)
        ensures
            (pattern_view(r), diag_views(final(diags)@)) == build_name(
                self.env(),
                *name,
                *ty,
                diag_views(old(diags)@),
            ),
    {
        let resolved = self.db.deep_resolve(ty);
        if let Type::Enum(def, args) = &resolved {
            if let Some(idx) = self.db.variant_index(*def, &name.text) {
                let arity: usize = self.db.payload_of(*def, args, idx).len();
                if arity > 0 {
                    let rendered = self.db.render(&resolved);
                    let at = FileSpan::new(self.file, name.range);
                    let mut fix = text3(&name.text, "(", &wildcard_text(arity));
                    fix.append(")");
                    push_diag(
                        diags,
                        arity_diag(at, &name.text, &rendered, arity, 0).with_suggestion(
                            at,
                            fix,
                            text("name the payload, or `_` for each slot you do not need"),
                        ),
                    );
                }
                let mut subpatterns: Vec<TypedPattern> = Vec::new();
                resize(&mut subpatterns, arity);
                return TypedPattern::EnumVariant {
                    enum_def_id: *def,
                    variant_idx: idx as u32,
                    subpatterns,
                    ty: ty.dup(),
                };
            }
        }
        self.bind(name, ty)
    }
}

fn shape_diag(at: FileSpan, head: &str, rendered: &str) -> (r: Diagnostic)
    ensures
        r@ == wrong_shape(at, head@, rendered@),
{
    Diagnostic::error(
        at,
        DiagCode::NotAPatternForType,
        text5("`", head, "` is not a pattern for `", rendered, "`"),
    )
}

fn arity_diag(at: FileSpan, variant: &str, rendered: &str, want: usize, got: usize) -> (r:
    Diagnostic)
    ensures
        r@ == wrong_arity(at, variant@, rendered@, want as nat, got as nat),
{
    let head = text5("`", variant, "` in `", rendered, "` holds ");
    let tail = text3(
        &decimal(want as u64),
        " value(s), but this pattern names ",
        &decimal(got as u64),
    );
    Diagnostic::error(at, DiagCode::PayloadArityMismatch, text2(&head, &tail))
}

proof fn lemma_views_update(s: Seq<TypedPattern>, i: int, p: TypedPattern)
    requires
        0 <= i < s.len(),
    ensures
        pattern_views(s.update(i, p)) == pattern_views(s).update(i, pattern_view(p)),
{
    lemma_pattern_views_index(s, 0);
    lemma_pattern_views_index(s.update(i, p), 0);
    assert forall|j: int| 0 <= j < s.len() implies #[trigger] pattern_views(s.update(i, p))[j]
        == pattern_views(s).update(i, pattern_view(p))[j] by {
        assert(s.update(i, p)[j] == if i == j {
            p
        } else {
            s[j]
        });
        assert(pattern_views(s)[j] == pattern_view(s[j]));
    }
    assert(pattern_views(s.update(i, p)) =~= pattern_views(s).update(i, pattern_view(p)));
}

/// Cuts or pads a list of patterns with wildcards to `n`.
fn resize(v: &mut Vec<TypedPattern>, n: usize)
    ensures
        pattern_views(final(v)@) == padded(pattern_views(old(v)@), n as nat),
        final(v)@.len() == n,
{
    let ghost start = v@;
    proof {
        lemma_pattern_views_index(start, 0);
    }
    if v.len() > n {
        v.truncate(n);
        proof {
            lemma_pattern_views_index(start, n as int);
            assert(v@ =~= start.take(n as int));
            assert(pattern_views(v@) =~= padded(pattern_views(start), n as nat));
        }
        return;
    }
    while v.len() < n
        invariant
            start.len() <= v@.len() <= n,
            forall|i: int| 0 <= i < start.len() ==> v@[i] == start[i],
            forall|i: int| start.len() <= i < v@.len() ==> v@[i] is Wildcard,
        decreases n - v@.len(),
    {
        v.push(TypedPattern::Wildcard);
    }
    proof {
        lemma_pattern_views_index(v@, 0);
        let l = pattern_views(v@);
        let r = padded(pattern_views(start), n as nat);
        assert forall|i: int| 0 <= i < n implies #[trigger] l[i] == r[i] by {
            assert(l[i] == pattern_view(v@[i]));
            if i < start.len() {
                assert(pattern_views(start)[i] == pattern_view(start[i]));
            }
        }
        assert(l =~= r);
    }
}

/// Whether a variant with the number `i` carries `n` values.
pub open spec fn has_slots(db: DbView, def: EnumDefId, args: TypeList, i: u32, n: nat) -> bool {
    exists|j: nat|
        j < variant_names(db.enums[def.0 as int]).len() && j as u32 == i && #[trigger] db.payload_of(
            def,
            args,
            j,
        ).len() == n
}

/// Whether every composite in a pattern has exactly one sub-pattern per payload
/// slot, element or declared field of the type it is matched with.
pub open spec fn well_shaped(db: DbView, p: PatternView) -> bool
    decreases p,
{
    match p {
        PatternView::EnumVariant(def, i, subs, ty) => {
            &&& db.resolve(ty) matches Type::Enum(d, args) && d == def && has_slots(
                db,
                def,
                args,
                i,
                subs.len(),
            )
            &&& all_shaped(db, subs)
        },
        PatternView::Tuple(subs, ty) => {
            &&& db.resolve(ty) matches Type::Tuple(els) && subs.len() == els.seq().len()
            &&& all_shaped(db, subs)
        },
        PatternView::Record(def, subs, ty) => {
            &&& db.resolve(ty) matches Type::Record(d, args) && d == def && subs.len()
                == db.field_count(def)
            &&& all_shaped(db, subs)
        },
        _ => true,
    }
}

pub open spec fn all_shaped(db: DbView, s: Seq<PatternView>) -> bool
    decreases s,
{
    s.len() == 0 || (all_shaped(db, s.drop_last()) && well_shaped(db, s.last()))
}

proof fn lemma_all_shaped(db: DbView, s: Seq<PatternView>)
    ensures
        all_shaped(db, s) <==> forall|i: int|
            0 <= i < s.len() ==> well_shaped(db, #[trigger] s[i]),
    decreases s.len(),
{
    if s.len() > 0 {
        lemma_all_shaped(db, s.drop_last());
        if all_shaped(db, s) {
            assert forall|i: int| 0 <= i < s.len() implies well_shaped(db, #[trigger] s[i]) by {
                if i < s.len() - 1 {
                    assert(s.drop_last()[i] == s[i]);
                }
            }
        }
        if forall|i: int| 0 <= i < s.len() ==> well_shaped(db, #[trigger] s[i]) {
            assert forall|i: int| 0 <= i < s.drop_last().len() implies well_shaped(
                db,
                #[trigger] s.drop_last()[i],
            ) by {
                assert(s.drop_last()[i] == s[i]);
            }
            assert(well_shaped(db, s[s.len() - 1]));
        }
    }
}

proof fn lemma_padded_shaped(db: DbView, s: Seq<PatternView>, n: nat)
    requires
        all_shaped(db, s),
    ensures
        all_shaped(db, padded(s, n)),
{
    lemma_all_shaped(db, s);
    lemma_all_shaped(db, padded(s, n));
}

/// Whether every enum's variants can be numbered.
pub open spec fn variants_numbered(db: DbView) -> bool {
    forall|d: int| 0 <= d < db.enums.len() ==> (#[trigger] db.enums[d]).variants.len() <= u32::MAX
}

/// A built pattern lines up with the value it is matched with, at every depth:
/// whatever the source names, nothing reads a slot the value does not have.
pub proof fn law_built_patterns_are_well_shaped(
    env: PatternEnv,
    pat: Pattern,
    ty: Type,
    diags: Seq<DiagView>,
)
    ensures
        well_shaped(env.db, build_spec(env, pat, ty, diags).0),
    decreases pat,
{
    let resolved = env.db.resolve(ty);
    assert(all_shaped(env.db, Seq::empty()));
    match pat.kind {
        PatternKind::Name(name) => {
            if let Type::Enum(def, args) = resolved {
                if let Some(i) = env.db.variant_index(def, name.text@) {
                    lemma_first_named(variant_names(env.db.enums[def.0 as int]), name.text@);
                    lemma_padded_shaped(
                        env.db,
                        Seq::empty(),
                        env.db.payload_of(def, args, i).len(),
                    );
                    assert(has_slots(
                        env.db,
                        def,
                        args,
                        i as u32,
                        env.db.payload_of(def, args, i).len(),
                    ));
                }
            }
        },
        PatternKind::Variant(name, subs) => {
            if let Type::Enum(def, args) = resolved {
                if let Some(i) = env.db.variant_index(def, name.text@) {
                    let payload = env.db.payload_of(def, args, i);
                    lemma_first_named(variant_names(env.db.enums[def.0 as int]), name.text@);
                    lemma_subs_shaped(env, subs@, payload, ty, diags);
                    lemma_padded_shaped(
                        env.db,
                        build_subs(env, subs@, payload, ty, diags).0,
                        payload.len(),
                    );
                    assert(has_slots(env.db, def, args, i as u32, payload.len()));
                }
            }
        },
        PatternKind::Tuple(subs) => {
            if let Type::Tuple(els) = resolved {
                lemma_subs_shaped(env, subs@, els.seq(), ty, diags);
                lemma_padded_shaped(
                    env.db,
                    build_subs(env, subs@, els.seq(), ty, diags).0,
                    els.seq().len(),
                );
            }
        },
        PatternKind::Record(head, fields) => {
            if let Type::Record(def, args) = resolved {
                let start = padded(Seq::empty(), env.db.field_count(def));
                lemma_padded_shaped(env.db, Seq::empty(), env.db.field_count(def));
                lemma_fields_shaped(env, fields@, def, args, start, diags);
            }
        },
        _ => {},
    }
}

proof fn lemma_subs_shaped(
    env: PatternEnv,
    subs: Seq<Pattern>,
    tys: Seq<Type>,
    otherwise: Type,
    diags: Seq<DiagView>,
)
    ensures
        all_shaped(env.db, build_subs(env, subs, tys, otherwise, diags).0),
    decreases subs,
{
    if subs.len() > 0 {
        let (built, before) = build_subs(env, subs.drop_last(), tys, otherwise, diags);
        lemma_subs_shaped(env, subs.drop_last(), tys, otherwise, diags);
        let ty = component(tys, subs.len() - 1, otherwise);
        law_built_patterns_are_well_shaped(env, subs.last(), ty, before);
        let last = build_spec(env, subs.last(), ty, before).0;
        assert(built.push(last).drop_last() =~= built);
    }
}

proof fn lemma_fields_shaped(
    env: PatternEnv,
    fields: Seq<FieldPattern>,
    def: RecordDefId,
    args: TypeList,
    start: Seq<PatternView>,
    diags: Seq<DiagView>,
)
    requires
        all_shaped(env.db, start),
        start.len() == env.db.field_count(def),
    ensures
        all_shaped(env.db, build_fields(env, fields, def, args, start, diags).0),
        build_fields(env, fields, def, args, start, diags).0.len() == start.len(),
    decreases fields,
{
    if fields.len() > 0 {
        let (built, before) = build_fields(env, fields.drop_last(), def, args, start, diags);
        lemma_fields_shaped(env, fields.drop_last(), def, args, start, diags);
        let field = fields.last();
        if let Some(name) = field.name {
            if let Some(i) = env.db.field_index(def, name.text@) {
                let ty = env.db.field_type(def, args, i);
                let p = match field.pattern {
                    Some(sub) => build_spec(env, sub, ty, before).0,
                    None => bind_spec(env, name, ty),
                };
                if let Some(sub) = field.pattern {
                    law_built_patterns_are_well_shaped(env, sub, ty, before);
                }
                assert(well_shaped(env.db, p));
                lemma_first_named(field_names(env.db.records[def.0 as int]), name.text@);
                lemma_all_shaped(env.db, built);
                lemma_all_shaped(env.db, built.update(i as int, p));
                assert forall|j: int| 0 <= j < built.len() implies well_shaped(
                    env.db,
                    #[trigger] built.update(i as int, p)[j],
                ) by {
                    assert(well_shaped(env.db, built[j]));
                }
            }
        }
    }
}

/// Where the variants of an enum can be numbered, a number is one variant's: the
/// slots are those of the variant with that number.
pub proof fn law_numbered_variants_have_their_slots(
    db: DbView,
    def: EnumDefId,
    args: TypeList,
    i: u32,
    n: nat,
)
    requires
        variants_numbered(db),
        def.0 < db.enums.len(),
        has_slots(db, def, args, i, n),
    ensures
        n == db.payload_of(def, args, i as nat).len(),
{
    let j = choose|j: nat|
        j < variant_names(db.enums[def.0 as int]).len() && j as u32 == i && #[trigger] db.payload_of(
            def,
            args,
            j,
        ).len() == n;
    assert(db.enums[def.0 as int].variants.len() <= u32::MAX);
    assert(j == i);
}

// ---------------------------------------------------------------------------
// Joining two passes' reports
// ---------------------------------------------------------------------------

/// Whether two reports say the same thing about the same place.
pub open spec fn same_report(a: DiagView, b: DiagView) -> bool {
    a.code == b.code && a.primary == b.primary
}

/// Whether `ds` already makes the report `d`.
pub open spec fn reported(ds: Seq<DiagView>, d: DiagView) -> bool {
    exists|i: int| 0 <= i < ds.len() && same_report(#[trigger] ds[i], d)
}

/// `out` followed by each report of `built` that was not already made.
pub open spec fn merged(out: Seq<DiagView>, built: Seq<DiagView>) -> Seq<DiagView>
    decreases built.len(),
{
    if built.len() == 0 {
        out
    } else {
        let before = merged(out, built.drop_last());
        if reported(before, built.last()) {
            before
        } else {
            before.push(built.last())
        }
    }
}

fn already_reported(ds: &Vec<Diagnostic>, d: &Diagnostic) -> (r: bool)
    ensures
        r == reported(diag_views(ds@), d@),
{
    let mut i: usize = 0;
    while i < ds.len()
        invariant
            i <= ds@.len(),
            forall|j: int| 0 <= j < i ==> !same_report(#[trigger] diag_views(ds@)[j], d@),
        decreases ds@.len() - i,
    {
        assert(diag_views(ds@)[i as int] == ds@[i as int]@);
        if ds[i].code == d.code && ds[i].primary == d.primary {
            assert(same_report(diag_views(ds@)[i as int], d@));
            return true;
        }
        i += 1;
    }
    false
}

/// Adds `built` to `out`, except what `out` already reports under the same code
/// at the same place.
pub fn merge_pattern_diagnostics(built: Vec<Diagnostic>, out: &mut Vec<Diagnostic>)
    ensures
        diag_views(final(out)@) == merged(diag_views(old(out)@), diag_views(built@)),
{
    let ghost all = built@;
    // Turned round, so that popping takes the reports in order.
    let mut queue = reversed(built);
    let ghost views = diag_views(all);
    assert(views.take(0) =~= Seq::empty());
    while queue.len() > 0
        invariant
            queue@.len() <= all.len(),
            views == diag_views(all),
            forall|i: int| 0 <= i < queue@.len() ==> queue@[i] == all[all.len() - 1 - i],
            diag_views(out@) == merged(
                diag_views(old(out)@),
                views.take(all.len() - queue@.len()),
            ),
        decreases queue@.len(),
    {
        let ghost n = all.len() - queue@.len();
        if let Some(d) = queue.pop() {
            assert(views.take(n + 1).drop_last() =~= views.take(n));
            assert(views.take(n + 1).last() == d@);
            if !already_reported(out, &d) {
                push_diag(out, d);
            }
        }
    }
    assert(views.take(all.len() as int) =~= views);
}

/// Merging keeps what was reported, in place; adds only reports that the other
/// pass made; makes none of them twice; and leaves none of them unmade.
pub proof fn law_merge(out: Seq<DiagView>, built: Seq<DiagView>)
    ensures
        out.len() <= merged(out, built).len(),
        merged(out, built).take(out.len() as int) == out,
        forall|i: int|
            out.len() <= i < merged(out, built).len() ==> built.contains(
                #[trigger] merged(out, built)[i],
            ),
        forall|i: int, j: int|
            #![trigger merged(out, built)[i], merged(out, built)[j]]
            out.len() <= j < merged(out, built).len() && 0 <= i < j ==> !same_report(
                merged(out, built)[i],
                merged(out, built)[j],
            ),
        forall|i: int|
            0 <= i < built.len() ==> reported(merged(out, built), #[trigger] built[i]),
    decreases built.len(),
{
    let m = merged(out, built);
    if built.len() == 0 {
        assert(m.take(out.len() as int) =~= out);
    } else {
        let front = built.drop_last();
        let b = merged(out, front);
        law_merge(out, front);
        assert(m.take(out.len() as int) =~= b.take(out.len() as int));
        assert forall|i: int| out.len() <= i < m.len() implies built.contains(
            #[trigger] m[i],
        ) by {
            if i < b.len() {
                assert(m[i] == b[i]);
                assert(front.contains(b[i]));
                let k = choose|k: int| 0 <= k < front.len() && front[k] == b[i];
                assert(built[k] == b[i]);
            } else {
                assert(built[built.len() - 1] == m[i]);
            }
        }
        assert forall|i: int, j: int|
            #![trigger m[i], m[j]]
            out.len() <= j < m.len() && 0 <= i < j implies !same_report(m[i], m[j]) by {
            assert(m[i] == b[i]);
            if j < b.len() {
                assert(m[j] == b[j]);
            } else {
                assert(!same_report(b[i], built.last()));
            }
        }
        assert forall|i: int| 0 <= i < built.len() implies reported(m, #[trigger] built[i]) by {
            if i < front.len() {
                assert(front[i] == built[i]);
                assert(reported(b, front[i]));
                let k = choose|k: int| 0 <= k < b.len() && same_report(#[trigger] b[k], front[i]);
                assert(m[k] == b[k]);
            } else if !reported(b, built.last()) {
                assert(same_report(m[b.len() as int], built[i]));
            }
        }
    }
}

// ---------------------------------------------------------------------------
// The patterns that bind
// ---------------------------------------------------------------------------

/// What there is to report about a pattern in a place that has no second arm.
pub open spec fn binding_reports(
    env: PatternEnv,
    pat: Pattern,
    ty: Type,
    must: Seq<char>,
) -> Seq<DiagView> {
    let (built, reports) = build_spec(env, pat, ty, Seq::empty());
    match refutable_word(built) {
        Some(word) => reports.push(
            error_at(
                FileSpan { file: env.file, span: pat.range },
                DiagCode::RefutableBinding,
                must + ", and "@ + word + " does not"@,
            ),
        ),
        None => reports,
    }
}

pub open spec fn for_must() -> Seq<char> {
    "a `for` binding must match every item"@
}

pub open spec fn param_must() -> Seq<char> {
    "a closure parameter must match every argument"@
}

/// The type of the parameter a pattern is declared at, once it has one.
pub open spec fn pattern_param_type(
    env: PatternEnv,
    names: Seq<SymbolView>,
    range: Span,
) -> Option<Type> {
    match at(env.decls, range) {
        Some(symbol) => match lookup(names, symbol) {
            Some(s) => match s.scheme {
                Some(scheme) => Some(scheme.body),
                None => None,
            },
            None => None,
        },
        None => None,
    }
}

/// The reports so far, after the pattern of one closure parameter.
pub open spec fn check_param(
    env: PatternEnv,
    names: Seq<SymbolView>,
    p: Param,
    out: Seq<DiagView>,
) -> Seq<DiagView> {
    match (p.name, p.pattern) {
        (None, Some(pat)) => if pat.kind is Wildcard {
            out
        } else {
            match pattern_param_type(env, names, pat.range) {
                Some(ty) => merged(out, binding_reports(env, pat, ty, param_must())),
                None => out,
            }
        },
        _ => out,
    }
}

pub open spec fn check_params(
    env: PatternEnv,
    names: Seq<SymbolView>,
    ps: Seq<Param>,
    out: Seq<DiagView>,
) -> Seq<DiagView>
    decreases ps.len(),
{
    if ps.len() == 0 {
        out
    } else {
        check_param(env, names, ps.last(), check_params(env, names, ps.drop_last(), out))
    }
}

/// The reports so far, after the binding patterns of one expression: a `for`
/// header's, and those of a closure's parameters.
pub open spec fn check_expr(
    env: PatternEnv,
    names: Seq<SymbolView>,
    ref_types: Map<Span, Type>,
    e: Expr,
    out: Seq<DiagView>,
) -> Seq<DiagView> {
    match e.kind {
        ExprKind::For { binding, .. } => match binding {
            Some(pat) => match at(ref_types, pat.range) {
                Some(ty) => merged(out, binding_reports(env, pat, ty, for_must())),
                None => out,
            },
            None => out,
        },
        ExprKind::Closure { params, .. } => check_params(env, names, params@, out),
        _ => out,
    }
}

pub open spec fn check_visits(
    env: PatternEnv,
    names: Seq<SymbolView>,
    ref_types: Map<Span, Type>,
    vs: Seq<Visit>,
    out: Seq<DiagView>,
) -> Seq<DiagView>
    decreases vs.len(),
{
    if vs.len() == 0 {
        out
    } else {
        let before = check_visits(env, names, ref_types, vs.drop_last(), out);
        match vs.last() {
            Visit::Expr(e) => check_expr(env, names, ref_types, e, before),
            Visit::Target(_) => before,
        }
    }
}

/// One binding position: keeps what building the pattern reports, and reports a
/// pattern that can fail.
fn check_binding(
    builder: &PatternBuilder<'_>,
    pat: &Pattern,
    ty: &Type,
    must: &str,
    out: &mut Vec<Diagnostic>,
)
    ensures
        diag_views(final(out)@) == merged(
            diag_views(old(out)@),
            binding_reports(builder.env(), *pat, *ty, must@),
        ),
{
    let mut built: Vec<Diagnostic> = Vec::new();
    assert(diag_views(built@) =~= Seq::empty());
    let pattern = builder.build(pat, ty, &mut built);
    if let Some(reason) = refutable_reason(&pattern) {
        let mut message = text3(must, ", and ", reason);
        message.append(" does not");
        push_diag(
            &mut built,
            Diagnostic::error(
                FileSpan::new(builder.file, pat.range),
                DiagCode::RefutableBinding,
                message,
            ),
        );
    }
    merge_pattern_diagnostics(built, out);
}

fn check_closure_params(
    builder: &PatternBuilder<'_>,
    names: &NameTable,
    params: &Vec<Param>,
    out: &mut Vec<Diagnostic>,
)
    ensures
        diag_views(final(out)@) == check_params(
            builder.env(),
            names@,
            params@,
            diag_views(old(out)@),
        ),
{
    let mut i: usize = 0;
    assert(params@.take(0) =~= Seq::empty());
    while i < params.len()
        invariant
            i <= params@.len(),
            diag_views(out@) == check_params(
                builder.env(),
                names@,
                params@.take(i as int),
                diag_views(old(out)@),
            ),
        decreases params@.len() - i,
    {
        assert(params@.take(i + 1).drop_last() =~= params@.take(i as int));
        assert(params@.take(i + 1).last() == params@[i as int]);
        let p = &params[i];
        if p.name.is_none() {
            if let Some(pat) = &p.pattern {
                let wild: bool = match &pat.kind {
                    PatternKind::Wildcard => true,
                    _ => false,
                };
                if !wild {
                    if let Some(symbol) = builder.decls.get(pat.range) {
                        if let Some(sym) = names.get(*symbol) {
                            if let Some(scheme) = &sym.scheme {
                                check_binding(
                                    builder,
                                    pat,
                                    &scheme.body,
                                    "a closure parameter must match every argument",
                                    out,
                                );
                            }
                        }
                    }
                }
            }
        }
        i += 1;
    }
    assert(params@.take(i as int) =~= params@);
}

/// Checks every binding pattern of the file: a `for` header and a destructuring
/// closure parameter. A binding has no second arm, so a pattern that can fail is
/// reported there.
pub fn check_binding_patterns(
    file: FileId,
    root: &SourceFile,
    db: &TypeDb,
    names: &NameTable,
    decls: &SpanMap<SymbolId>,
    ref_types: &SpanMap<Type>,
    out: &mut Vec<Diagnostic>,
)
    ensures
        diag_views(final(out)@) == check_visits(
            PatternEnv { file, db: db@, decls: decls@ },
            names@,
            ref_types@,
            file_descendants(root.items@),
            diag_views(old(out)@),
        ),
{
    let builder = PatternBuilder { file, db, decls };
    let nodes = descendants(root);
    let ghost all = file_descendants(root.items@);
    let mut i: usize = 0;
    assert(all.take(0) =~= Seq::empty());
    while i < nodes.len()
        invariant
            i <= nodes@.len(),
            visits(nodes@) == all,
            diag_views(out@) == check_visits(
                builder.env(),
                names@,
                ref_types@,
                all.take(i as int),
                diag_views(old(out)@),
            ),
        decreases nodes@.len() - i,
    {
        let seen = nodes[i];
        assert(all[i as int] == seen@);
        assert(all.take(i + 1).drop_last() =~= all.take(i as int));
        i += 1;
        let Seen::Expr(node) = seen else {
            continue;
        };
        match &node.kind {
            ExprKind::For { binding, .. } => {
                if let Some(pat) = binding {
                    if let Some(item_ty) = ref_types.get(pat.range) {
                        check_binding(
                            &builder,
                            pat,
                            item_ty,
                            "a `for` binding must match every item",
                            out,
                        );
                    }
                }
            },
            ExprKind::Closure { params, .. } => {
                check_closure_params(&builder, names, params, out);
            },
            _ => {},
        }
    }
    assert(all.take(i as int) =~= all);
}

} // verus!