//! What inference records of each construct of the source.
//!
//! Names and types are worked out together, in source order: a name is looked up
//! among the declarations in scope, and a type is whatever makes every use agree.
use vstd::prelude::*;

use crate::analysis::{CallSite, MethodEntry, MethodRef, MethodRowView};
use crate::ast::{
    AssignToken, BinToken, Block, Expr, ExprKind, FieldDecl, FieldInit, FieldPattern, FnItem,
    Ident, InterpPart, LitToken, MatchArm, Param, ParserBody, Pattern, PatternKind,
    PlaceAssignOp, Stmt, StmtKind, Store, TopLevel, TypeExpr, TypeExprKind, UnaryToken,
    VariantDecl,
};
use crate::capture::ResolvedRef;
use crate::parser_copy::IndexView;
use crate::recursion::{recursion_of, Recursion};
use crate::scope::{opened, with_member, ScopeId, ScopesView};
use crate::cycles::check_all_cycles;
use crate::name_table::lookup;
use crate::pattern::{lit_type, lit_value, out_of_range, shown};
use crate::source::{
    decimal_digits, diag_views, error_at, hinting, noting, suggesting, DiagCode, DiagView, FileId,
    FileSpan, Span,
};
use crate::symbol::{SymbolId, SymbolKind, SymbolView};
use crate::tables::{at, NodeKey};
use crate::typedb::{
    field_names, fill_params, fill_params_list, first_var, fresh_spec, monotype, vars_of,
    Capability, DbView, EnumView, FieldView, Need, RecordView, SchemeView, VariantView,
};
use crate::types::{
    apply_list, occurs, occurs_list, CollectionCtor, EnumDefId, RecordDefId, ScalarType, Type,
    TypeList,
};
use crate::unify::{inst, known, respects, unify_spec, well_formed};

verus! {

/// A requirement that could not be decided where it arose.
#[derive(Debug)]
pub struct Pending {
    pub need: Need,
    pub at: Span,
}

/// What is asked of a value.
#[derive(Clone, Copy, Debug, PartialEq, Eq, Structural)]
pub enum Asked {
    Method,
    Field,
    Subscript,
    /// A store through a subscript.
    Store,
}

/// A function that uses a binding around it.
#[derive(Clone, Copy, Debug, PartialEq, Eq, Structural)]
pub struct OuterUse {
    pub at: Span,
    pub function: SymbolId,
    pub used: SymbolId,
}

/// Something asked of a value while nothing is known of its type.
pub ghost struct DeferredView {
    pub asked: Asked,
    pub name: Seq<char>,
    pub at: Span,
    pub receiver: Type,
    pub args: TypeList,
    pub result: Type,
}

/// A loop around the point reached.
#[derive(Debug)]
pub struct LoopFrame {
    /// Whether the loop is left with a value: only a `loop` is.
    pub valued: bool,
    /// What it has been left with so far.
    pub left: Option<Type>,
}

/// Everything inference knows at some point of a file.
pub ghost struct Inf {
    pub file: FileId,
    pub db: DbView,
    pub names: Seq<SymbolView>,
    /// The names in scope; a later one hides an earlier one.
    pub env: Seq<(Seq<char>, SymbolId)>,
    /// The named types.
    pub types: Seq<(Seq<char>, Type)>,
    /// The methods of the standard library.
    pub methods: Seq<MethodRowView>,
    /// The names some assignment stores to.
    pub assigned: Seq<Seq<char>>,
    pub refs: Map<Span, ResolvedRef>,
    pub ref_types: Map<Span, Type>,
    pub decls: Map<Span, SymbolId>,
    pub call_sites: Map<Span, CallSite>,
    pub expr_types: Map<NodeKey, Type>,
    pub method_refs: Map<Span, MethodRef>,
    pub diags: Seq<DiagView>,
    pub needs: Seq<Pending>,
    /// What waits for the type it is asked of.
    pub deferred: Seq<DeferredView>,
    /// The bindings at the top level, in the order of the source.
    pub tops: Seq<(Seq<char>, SymbolId)>,
    /// The function around the point reached, and where it stands.
    pub inside: Option<(SymbolId, Span)>,
    /// The calls functions make.
    pub calls: Seq<(SymbolId, SymbolId)>,
    /// The uses of bindings around functions.
    pub outer_uses: Seq<OuterUse>,
    /// The scopes so far, and the one around the point reached.
    pub scopes: ScopesView,
    pub scope: ScopeId,
    /// The parser expressions so far.
    pub parser_exprs: Seq<IndexView>,
    /// What the enclosing function returns.
    pub result: Option<Type>,
    /// What the enclosing loops are left with, the innermost last.
    pub breaks: Seq<LoopFrame>,
}

pub open spec fn int_type() -> Type {
    Type::Scalar(ScalarType::Int)
}

pub open spec fn bool_type() -> Type {
    Type::Scalar(ScalarType::Bool)
}

pub open spec fn text_type() -> Type {
    Type::Scalar(ScalarType::Text)
}

pub open spec fn float_type() -> Type {
    Type::Scalar(ScalarType::Float)
}

// ---------------------------------------------------------------------------
// Steps
// ---------------------------------------------------------------------------

pub open spec fn report(st: Inf, span: Span, code: DiagCode, message: Seq<char>) -> Inf {
    Inf {
        diags: st.diags.push(error_at(FileSpan { file: st.file, span }, code, message)),
        ..st
    }
}

/// A type nothing is known of yet.
pub open spec fn fresh(st: Inf) -> (Type, Inf) {
    let (t, db) = fresh_spec(st.db);
    (t, Inf { db, ..st })
}

pub open spec fn mismatch(st: Inf, want: Type, got: Type, span: Span) -> Inf {
    let found = st.db.resolve(got);
    let at = FileSpan { file: st.file, span };
    let d = error_at(
        at,
        DiagCode::TypeMismatch,
        "expected "@ + shown(st.db, st.db.resolve(want)) + ", found "@ + shown(st.db, found),
    );
    Inf {
        diags: st.diags.push(
            if found is Unit {
                hinting(d, at, unit_hint())
            } else {
                d
            },
        ),
        ..st
    }
}

pub open spec fn unit_hint() -> Seq<char> {
    "this is `Unit`: a block that ends in a statement, and a call made for its effect, have no other value"@
}

/// Makes `got` agree with `want`. What never returns agrees with anything.
pub open spec fn expect(st: Inf, want: Type, got: Type, span: Span) -> Inf {
    if st.db.resolve(got) is Never {
        st
    } else {
        match unify_spec(st.db.solution, want, got) {
            Some(solution) => Inf { db: DbView { solution, ..st.db }, ..st },
            None => mismatch(st, want, got, span),
        }
    }
}

/// The type of either of two branches.
pub open spec fn join(st: Inf, a: Type, b: Type, span: Span) -> (Type, Inf) {
    if st.db.resolve(a) is Never {
        (b, st)
    } else {
        (a, expect(st, a, b, span))
    }
}

/// The declaration a name refers to: the latest in scope.
pub open spec fn in_scope(env: Seq<(Seq<char>, SymbolId)>, name: Seq<char>) -> Option<SymbolId>
    decreases env.len(),
{
    if env.len() == 0 {
        None
    } else if env.last().0 == name {
        Some(env.last().1)
    } else {
        in_scope(env.drop_last(), name)
    }
}

/// Declares a name, unless every id is taken.
pub open spec fn declare(
    st: Inf,
    name: Seq<char>,
    range: Span,
    kind: SymbolKind,
    scheme: Option<SchemeView>,
) -> Inf {
    if st.names.len() < u32::MAX {
        let id = SymbolId(st.names.len() as u32);
        Inf {
            names: st.names.push(
                SymbolView {
                    id,
                    name,
                    kind,
                    decl: Some(FileSpan { file: st.file, span: range }),
                    reassigned: false,
                    scheme,
                },
            ),
            env: st.env.push((name, id)),
            decls: st.decls.insert(range, id),
            scopes: with_member(st.scopes, st.scope, id),
            ..st
        }
    } else {
        st
    }
}

/// Opens a scope inside the one around the point reached.
pub open spec fn enter(st: Inf) -> Inf {
    let (scope, scopes) = opened(st.scopes, st.scope);
    Inf { scope, scopes, ..st }
}

/// Gives a symbol its type.
pub open spec fn set_scheme(st: Inf, id: SymbolId, scheme: SchemeView) -> Inf {
    if id.0 < st.names.len() {
        Inf {
            names: st.names.update(
                id.0 as int,
                SymbolView { scheme: Some(scheme), ..st.names[id.0 as int] },
            ),
            ..st
        }
    } else {
        st
    }
}

pub open spec fn set_reassigned(st: Inf, id: SymbolId) -> Inf {
    if id.0 < st.names.len() {
        Inf {
            names: st.names.update(
                id.0 as int,
                SymbolView { reassigned: true, ..st.names[id.0 as int] },
            ),
            ..st
        }
    } else {
        st
    }
}

/// Records what a name refers to.
pub open spec fn refer(st: Inf, range: Span, symbol: SymbolId, ty: Type) -> Inf {
    check_outer(
        Inf {
            refs: st.refs.insert(range, ResolvedRef { symbol, scope: st.scope }),
            ref_types: st.ref_types.insert(range, ty),
            ..st
        },
        range,
        symbol,
    )
}

/// Whether a binding belongs to a function that does not stand at `body`.
pub open spec fn is_outer(s: SymbolView, body: Span) -> bool {
    s.kind.spec_is_local() && match s.decl {
        Some(d) => !body.encloses(d.span),
        None => false,
    }
}

/// Keeps a use of a binding around the function it stands in.
pub open spec fn check_outer(st: Inf, range: Span, symbol: SymbolId) -> Inf {
    match (st.inside, lookup(st.names, symbol)) {
        (Some((f, body)), Some(s)) => if is_outer(s, body) {
            Inf {
                outer_uses: st.outer_uses.push(OuterUse { at: range, function: f, used: symbol }),
                ..st
            }
        } else {
            st
        },
        _ => st,
    }
}

pub open spec fn symbol_name(names: Seq<SymbolView>, id: SymbolId) -> Seq<char> {
    match lookup(names, id) {
        Some(s) => s.name,
        None => Seq::empty(),
    }
}

pub open spec fn outer_message(f: Seq<char>, name: Seq<char>, recursive: bool) -> Seq<char> {
    "`"@ + f + "` cannot use `"@ + name
        + "`: a function does not capture the bindings around it (pass `"@ + name + if recursive {
        "` as a parameter)"@
    } else {
        "` as a parameter, or use a closure)"@
    }
}

/// Why a function that calls itself cannot be a closure instead.
pub open spec fn no_closure_hint(f: Seq<char>, through: Seq<char>) -> Seq<char> {
    "`"@ + f + "` calls itself"@ + through
        + ", so a closure is not the way out: a closure cannot name itself (`N001`)"@
}

/// A function does not capture: a binding around it is reported where it is
/// used. A closure would be another way only for a function that never calls
/// itself.
pub open spec fn outer_report(st: Inf, u: OuterUse) -> DiagView {
    let f = symbol_name(st.names, u.function);
    let name = symbol_name(st.names, u.used);
    let at = FileSpan { file: st.file, span: u.at };
    let code = DiagCode::FunctionReadsOuterBinding;
    match recursion_of(st.calls, u.function) {
        Recursion::Never => error_at(at, code, outer_message(f, name, false)),
        Recursion::Directly => hinting(
            error_at(at, code, outer_message(f, name, true)),
            at,
            no_closure_hint(f, ""@),
        ),
        Recursion::Through(c) => hinting(
            error_at(at, code, outer_message(f, name, true)),
            at,
            no_closure_hint(f, " through `"@ + symbol_name(st.names, c) + "`"@),
        ),
    }
}

/// Reports the uses of bindings around functions.
pub open spec fn report_outer(st: Inf, us: Seq<OuterUse>) -> Inf
    decreases us.len(),
{
    if us.len() == 0 {
        st
    } else {
        let s1 = report_outer(st, us.drop_last());
        Inf { diags: s1.diags.push(outer_report(s1, us.last())), ..s1 }
    }
}

pub open spec fn record(st: Inf, e: Expr, ty: Type) -> Inf {
    Inf { expr_types: st.expr_types.insert(e.spec_key(), ty), ..st }
}

/// A name that nothing declares. `let` is a word of the past, and named as one.
pub open spec fn unknown_name(st: Inf, name: Ident) -> Inf {
    if name.text@ == "let"@ {
        let at = FileSpan { file: st.file, span: name.range };
        Inf {
            diags: st.diags.push(
                suggesting(
                    error_at(at, DiagCode::RetiredKeyword, "a binding is written with `var`"@),
                    at,
                    "var"@,
                    "write `var`"@,
                ),
            ),
            ..st
        }
    } else {
        report(
            st,
            name.range,
            DiagCode::UnknownName,
            "cannot find `"@ + name.text@ + "` in this scope"@,
        )
    }
}

// ---------------------------------------------------------------------------
// Requirements
// ---------------------------------------------------------------------------

/// An answer that may have to wait.
#[derive(Clone, Copy, Debug, PartialEq, Eq, Structural)]
pub enum Answer {
    Yes,
    No,
    Later,
}

/// Both answers together: a refusal decides.
pub open spec fn both(a: Answer, b: Answer) -> Answer {
    if a == Answer::No || b == Answer::No {
        Answer::No
    } else if a == Answer::Later || b == Answer::Later {
        Answer::Later
    } else {
        Answer::Yes
    }
}

/// Whether values of type `t` can be compared for equality, or as keys: functions
/// cannot, and as keys nothing that can change. Definitions are looked into
/// `depth` deep.
pub open spec fn comparable(db: DbView, keys: bool, depth: nat, t: Type) -> Answer
    decreases 2 * depth, t, 0nat,
{
    match t {
        Type::Func(_, _) => Answer::No,
        Type::Var(_) => Answer::Later,
        Type::Collection(c, a) => if c == CollectionCtor::Range {
            Answer::Yes
        } else if keys {
            Answer::No
        } else {
            all_comparable(db, keys, depth, a)
        },
        Type::Tuple(a) => all_comparable(db, keys, depth, a),
        Type::Enum(_, a) => all_comparable(db, keys, depth, a),
        Type::Record(d, a) => both(
            all_comparable(db, keys, depth, a),
            match db.record_def(d) {
                Some(r) => if depth > 0 {
                    fields_comparable(db, keys, (depth - 1) as nat, r.fields)
                } else {
                    Answer::Yes
                },
                None => Answer::Yes,
            },
        ),
        _ => Answer::Yes,
    }
}

pub open spec fn all_comparable(db: DbView, keys: bool, depth: nat, l: TypeList) -> Answer
    decreases 2 * depth, l, 0nat,
{
    match l {
        TypeList::Nil => Answer::Yes,
        TypeList::Cons(h, t) => both(
            comparable(db, keys, depth, *h),
            all_comparable(db, keys, depth, *t),
        ),
    }
}

pub open spec fn fields_comparable(db: DbView, keys: bool, depth: nat, fields: Seq<FieldView>) -> Answer
    decreases 2 * depth + 1, fields, 0nat,
{
    if fields.len() == 0 {
        Answer::Yes
    } else {
        both(
            fields_comparable(db, keys, depth, fields.drop_last()),
            comparable(db, keys, depth, fields.last().ty),
        )
    }
}

/// Whether values of type `t` have an order: numbers, text and characters.
pub open spec fn orderable(t: Type) -> Answer {
    match t {
        Type::Scalar(ScalarType::Bool) => Answer::No,
        Type::Scalar(_) => Answer::Yes,
        Type::Never => Answer::Yes,
        Type::Var(_) => Answer::Later,
        _ => Answer::No,
    }
}

pub open spec fn numeric(t: Type) -> Answer {
    match t {
        Type::Scalar(ScalarType::Int) => Answer::Yes,
        Type::Scalar(ScalarType::Float) => Answer::Yes,
        Type::Never => Answer::Yes,
        Type::Var(_) => Answer::Later,
        _ => Answer::No,
    }
}

/// What iterating a value of type `t` yields.
pub open spec fn item_of(t: Type) -> Option<Type> {
    match t {
        Type::Scalar(ScalarType::Text) => Some(Type::Scalar(ScalarType::Char)),
        Type::Collection(c, a) => match c {
            CollectionCtor::Range => Some(int_type()),
            CollectionCtor::BitSet => Some(int_type()),
            CollectionCtor::Grid => None,
            CollectionCtor::MapOf => Some(Type::Tuple(a)),
            CollectionCtor::Counter => match a {
                TypeList::Cons(h, _) => Some(
                    Type::Tuple(
                        TypeList::Cons(
                            h,
                            Box::new(TypeList::Cons(Box::new(int_type()), Box::new(TypeList::Nil))),
                        ),
                    ),
                ),
                TypeList::Nil => None,
            },
            _ => match a {
                TypeList::Cons(h, _) => Some(*h),
                TypeList::Nil => None,
            },
        },
        _ => None,
    }
}

pub open spec fn iterable(t: Type) -> Answer {
    match t {
        Type::Var(_) => Answer::Later,
        Type::Never => Answer::Yes,
        _ => if item_of(t) is Some {
            Answer::Yes
        } else {
            Answer::No
        },
    }
}

pub open spec fn supports(db: DbView, what: Capability, t: Type) -> Answer {
    match what {
        Capability::Equatable => comparable(db, false, db.records.len(), t),
        Capability::Hashable => comparable(db, true, db.records.len(), t),
        Capability::Orderable => orderable(t),
        Capability::Numeric => numeric(t),
        Capability::Iterable => iterable(t),
        _ => Answer::Yes,
    }
}

pub open spec fn need_code(what: Capability) -> DiagCode {
    match what {
        Capability::Equatable => DiagCode::NotEquatable,
        Capability::Orderable => DiagCode::NotOrderable,
        Capability::Numeric => DiagCode::NotNumeric,
        Capability::Iterable => DiagCode::NotIterable,
        Capability::Hashable => DiagCode::NotHashable,
        Capability::Indexable => DiagCode::NotIndexable,
    }
}

pub open spec fn need_word(what: Capability) -> Seq<char> {
    match what {
        Capability::Equatable => "cannot be compared for equality"@,
        Capability::Orderable => "has no order"@,
        Capability::Numeric => "is not a number"@,
        Capability::Iterable => "cannot be iterated"@,
        Capability::Hashable => "cannot be a key"@,
        Capability::Indexable => "cannot be indexed"@,
    }
}

pub open spec fn refuse(st: Inf, what: Capability, t: Type, span: Span) -> Inf {
    report(st, span, need_code(what), "`"@ + shown(st.db, t) + "` "@ + need_word(what))
}

/// Notes on a report made after the first `n` where the requirement arose.
pub open spec fn note_last(st: Inf, n: nat, from: Option<Span>) -> Inf {
    match from {
        Some(span) => if st.diags.len() > n {
            Inf {
                diags: st.diags.drop_last().push(
                    noting(
                        st.diags.last(),
                        FileSpan { file: st.file, span },
                        "it is iterated here"@,
                    ),
                ),
                ..st
            }
        } else {
            st
        },
        None => st,
    }
}

/// Settles one requirement: it is met, it is refused, or it waits. Meeting
/// `Iterable` says what the items are.
pub open spec fn settle(st: Inf, p: Pending) -> Inf {
    let t = st.db.resolve(p.need.ty);
    match supports(st.db, p.need.what, t) {
        Answer::Yes => if p.need.what == Capability::Iterable {
            match item_of(t) {
                Some(item) => note_last(
                    expect(st, p.need.other, item, p.at),
                    st.diags.len(),
                    p.need.from,
                ),
                None => st,
            }
        } else {
            st
        },
        Answer::No => refuse(st, p.need.what, t, p.at),
        Answer::Later => Inf { needs: st.needs.push(p), ..st },
    }
}

/// Settles requirements in order.
pub open spec fn settle_all(st: Inf, ps: Seq<Pending>) -> Inf
    decreases ps.len(),
{
    if ps.len() == 0 {
        st
    } else {
        settle(settle_all(st, ps.drop_last()), ps.last())
    }
}

/// Settles the requirements that have been waiting.
pub open spec fn settle_needs(st: Inf) -> Inf {
    settle_all(Inf { needs: Seq::empty(), ..st }, st.needs)
}

/// Settles what has been waiting.
pub open spec fn resettle(st: Inf) -> Inf {
    let s1 = settle_needs(st);
    settle_needs(answer_all(Inf { deferred: Seq::empty(), ..s1 }, s1.deferred))
}

/// Settles what has been waiting `n` times: an answer may be what another
/// question waits for.
pub open spec fn resettle_times(st: Inf, n: nat) -> Inf
    decreases n,
{
    if n == 0 {
        st
    } else {
        resettle(resettle_times(st, (n - 1) as nat))
    }
}

/// Answers questions in order.
pub open spec fn answer_all(st: Inf, ds: Seq<DeferredView>) -> Inf
    decreases ds.len(),
{
    if ds.len() == 0 {
        st
    } else {
        answer(answer_all(st, ds.drop_last()), ds.last())
    }
}

/// Answers one question, or keeps it for later.
pub open spec fn answer(st: Inf, d: DeferredView) -> Inf {
    let t = st.db.resolve(d.receiver);
    match t {
        Type::Var(_) => Inf { deferred: st.deferred.push(d), ..st },
        Type::Never => st,
        _ => match d.asked {
            Asked::Method => answer_method(st, d, t),
            Asked::Field => answer_field(st, d, t),
            Asked::Subscript => answer_subscript(st, d, t),
            Asked::Store => answer_store(st, d, t),
        },
    }
}

/// The operator of a row that stores through a subscript.
pub open spec fn store_word(name: Seq<char>) -> Seq<char> {
    if name == "[]min="@ {
        "min="@
    } else if name == "[]max="@ {
        "max="@
    } else {
        "="@
    }
}

pub open spec fn no_store(st: Inf, name: Seq<char>, t: Type, span: Span) -> Inf {
    report(
        st,
        span,
        DiagCode::NotIndexable,
        "`"@ + shown(st.db, t) + "` has no `"@ + store_word(name) + "` through a subscript"@,
    )
}

/// A store through a subscript, by the row for it.
pub open spec fn answer_store(st: Inf, d: DeferredView, t: Type) -> Inf {
    match first_row(st.methods, d.name, d.args.seq().len(), t) {
        None => no_store(st, d.name, t, d.at),
        Some(_) => answer_method(st, d, t),
    }
}

/// Makes each of `got` agree with its part of `want`, reporting at one place.
pub open spec fn expect_all(st: Inf, want: Seq<Type>, got: Seq<Type>, n: nat, span: Span) -> Inf
    decreases n,
{
    if n == 0 || n > want.len() || n > got.len() {
        st
    } else {
        expect(
            expect_all(st, want, got, (n - 1) as nat, span),
            want[n - 1],
            got[n - 1],
            span,
        )
    }
}

pub open spec fn answer_method(st: Inf, d: DeferredView, t: Type) -> Inf {
    let got = d.args.seq();
    match first_row(st.methods, d.name, got.len(), t) {
        None => no_method(st, d.name, d.at, t, got.len()),
        Some(i) => {
            let row = st.methods[i as int];
            let (wants, r, s1) = use_row(st, row, t, d.at);
            let s2 = expect_all(s1, wants, got, shorter(wants.len(), got.len()), d.at);
            note_method(expect(s2, d.result, r, d.at), d.at, row.entry, t, r)
        },
    }
}

pub open spec fn shorter(a: nat, b: nat) -> nat {
    if a < b {
        a
    } else {
        b
    }
}

pub open spec fn answer_field(st: Inf, d: DeferredView, t: Type) -> Inf {
    match field_of(st.db, t, d.name) {
        Some(f) => expect(st, d.result, f, d.at),
        None => no_field(st, t, d.name, d.at),
    }
}

pub open spec fn answer_subscript(st: Inf, d: DeferredView, t: Type) -> Inf {
    let got = d.args.seq();
    match subscript(t) {
        Some((takes, gives)) => if takes.len() == got.len() {
            let s1 = expect_all(st, takes, got, got.len(), d.at);
            note_subscript(expect(s1, d.result, gives, d.at), d.at, "[]"@, got.len(), t, gives)
        } else {
            refuse(st, Capability::Indexable, t, d.at)
        },
        None => refuse(st, Capability::Indexable, t, d.at),
    }
}

/// Keeps a question for later; what it answers is not known yet.
pub open spec fn defer(
    st: Inf,
    asked: Asked,
    name: Seq<char>,
    at: Span,
    receiver: Type,
    args: Seq<Type>,
) -> (Type, Inf) {
    let (result, s1) = fresh(st);
    (
        result,
        Inf {
            deferred: s1.deferred.push(
                DeferredView { asked, name, at, receiver, args: TypeList::of(args), result },
            ),
            ..s1
        },
    )
}

/// Whether a question that waits speaks of `v`.
pub open spec fn asks_about(db: DbView, d: DeferredView, v: u32) -> bool {
    occurs(v, db.resolve(d.receiver)) || occurs_list(v, apply_list(db.solution, d.args)) || occurs(
        v,
        db.resolve(d.result),
    )
}

pub open spec fn asked_about(db: DbView, ds: Seq<DeferredView>, v: u32) -> bool
    decreases ds.len(),
{
    ds.len() > 0 && (asks_about(db, ds.last(), v) || asked_about(db, ds.drop_last(), v))
}

pub open spec fn require(st: Inf, what: Capability, ty: Type, other: Type, span: Span) -> Inf {
    settle(st, Pending { need: Need { what, ty, other, from: None }, at: span })
}

// ---------------------------------------------------------------------------
// Schemes
// ---------------------------------------------------------------------------

/// `n` types nothing is known of yet.
pub open spec fn fresh_many(st: Inf, n: nat) -> (Seq<Type>, Inf)
    decreases n,
{
    if n == 0 {
        (Seq::empty(), st)
    } else {
        let (ts, s1) = fresh_many(st, (n - 1) as nat);
        let (t, s2) = fresh(s1);
        (ts.push(t), s2)
    }
}

/// The requirements of a scheme, at the types a use chooses.
pub open spec fn chosen_needs(needs: Seq<Need>, binders: Seq<u32>, args: Seq<Type>, span: Span) -> Seq<
    Pending,
> {
    needs.map_values(
        |n: Need|
            Pending {
                need: Need {
                    what: n.what,
                    ty: fill_params(n.ty, binders, args),
                    other: fill_params(n.other, binders, args),
                    from: n.from,
                },
                at: span,
            },
    )
}

/// A use of a scheme: each binder is chosen afresh, and what the scheme requires
/// is required of the choice.
pub open spec fn use_scheme(st: Inf, s: SchemeView, span: Span) -> (Type, Inf) {
    let (args, s1) = fresh_many(st, s.binders.len());
    (
        fill_params(s.body, s.binders, args),
        Inf { needs: s1.needs + chosen_needs(s.needs, s.binders, args, span), ..s1 },
    )
}

/// The type of a symbol at a use.
pub open spec fn use_symbol(st: Inf, id: SymbolId, span: Span) -> (Type, Inf) {
    match lookup(st.names, id) {
        Some(s) => match s.scheme {
            Some(scheme) => use_scheme(st, scheme, span),
            None => fresh(st),
        },
        None => fresh(st),
    }
}

/// Whether a symbol other than those declared inside `inside` mentions `v`
/// without choosing it.
pub open spec fn mentioned(db: DbView, s: SymbolView, inside: Span, v: u32) -> bool {
    let outside = match s.decl {
        Some(d) => !inside.encloses(d.span),
        None => true,
    };
    outside && (match s.scheme {
        Some(scheme) => first_var(scheme.binders, v) is None && occurs(v, db.resolve(scheme.body)),
        None => false,
    })
}

pub open spec fn mentioned_any(db: DbView, names: Seq<SymbolView>, inside: Span, v: u32) -> bool
    decreases names.len(),
{
    names.len() > 0 && (mentioned(db, names.last(), inside, v) || mentioned_any(
        db,
        names.drop_last(),
        inside,
        v,
    ))
}

/// Those of `vars` that no symbol declared outside `inside` mentions, and nothing
/// that waits asks about.
pub open spec fn free_to_choose(
    db: DbView,
    names: Seq<SymbolView>,
    ds: Seq<DeferredView>,
    inside: Span,
    vars: Seq<u32>,
) -> Seq<u32>
    decreases vars.len(),
{
    if vars.len() == 0 {
        Seq::empty()
    } else {
        let before = free_to_choose(db, names, ds, inside, vars.drop_last());
        if mentioned_any(db, names, inside, vars.last()) || asked_about(db, ds, vars.last()) {
            before
        } else {
            before.push(vars.last())
        }
    }
}

/// Whether a requirement is about one of `vars`.
pub open spec fn about(db: DbView, n: Need, vars: Seq<u32>) -> bool {
    match db.resolve(n.ty) {
        Type::Var(v) => first_var(vars, v) is Some,
        _ => false,
    }
}

/// Where a requirement arose first.
pub open spec fn arose_at(p: Pending) -> Span {
    match p.need.from {
        Some(s) => s,
        None => p.at,
    }
}

/// The waiting requirements about `vars`, with their types resolved.
pub open spec fn needs_about(db: DbView, ps: Seq<Pending>, vars: Seq<u32>) -> Seq<Need>
    decreases ps.len(),
{
    if ps.len() == 0 {
        Seq::empty()
    } else {
        let before = needs_about(db, ps.drop_last(), vars);
        let n = ps.last().need;
        if about(db, n, vars) {
            before.push(
                Need {
                    what: n.what,
                    ty: db.resolve(n.ty),
                    other: db.resolve(n.other),
                    from: Some(arose_at(ps.last())),
                },
            )
        } else {
            before
        }
    }
}

/// The waiting requirements about anything else.
pub open spec fn needs_left(db: DbView, ps: Seq<Pending>, vars: Seq<u32>) -> Seq<Pending>
    decreases ps.len(),
{
    if ps.len() == 0 {
        Seq::empty()
    } else {
        let before = needs_left(db, ps.drop_last(), vars);
        if about(db, ps.last().need, vars) {
            before
        } else {
            before.push(ps.last())
        }
    }
}

/// Lets each use of a symbol choose the variables that nothing outside `inside`
/// mentions. The requirements on them go with the scheme.
pub open spec fn generalize(st: Inf, id: SymbolId, ty: Type, inside: Span) -> Inf {
    let s1 = resettle(st);
    let body = s1.db.resolve(ty);
    let binders = free_to_choose(
        s1.db,
        s1.names,
        s1.deferred,
        inside,
        vars_of(body, Seq::empty()),
    );
    let s2 = Inf { needs: needs_left(s1.db, s1.needs, binders), ..s1 };
    set_scheme(
        s2,
        id,
        SchemeView { binders, body, needs: needs_about(s1.db, s1.needs, binders) },
    )
}

// ---------------------------------------------------------------------------
// Written types
// ---------------------------------------------------------------------------

/// A type by its own name.
pub open spec fn plain_type(name: Seq<char>) -> Option<Type> {
    if name == "Int"@ {
        Some(int_type())
    } else if name == "Bool"@ {
        Some(bool_type())
    } else if name == "Text"@ {
        Some(text_type())
    } else if name == "Char"@ {
        Some(Type::Scalar(ScalarType::Char))
    } else if name == "Float"@ {
        Some(float_type())
    } else if name == "Unit"@ {
        Some(Type::Unit)
    } else if name == "Never"@ {
        Some(Type::Never)
    } else {
        None
    }
}

/// The collection a name stands for.
pub open spec fn ctor_named(name: Seq<char>) -> Option<CollectionCtor> {
    if name == "Vec"@ {
        Some(CollectionCtor::Vec)
    } else if name == "Deque"@ {
        Some(CollectionCtor::Deque)
    } else if name == "Map"@ {
        Some(CollectionCtor::MapOf)
    } else if name == "Set"@ {
        Some(CollectionCtor::SetOf)
    } else if name == "Counter"@ {
        Some(CollectionCtor::Counter)
    } else if name == "MinHeap"@ {
        Some(CollectionCtor::MinHeap)
    } else if name == "MaxHeap"@ {
        Some(CollectionCtor::MaxHeap)
    } else if name == "BitSet"@ {
        Some(CollectionCtor::BitSet)
    } else if name == "Grid"@ {
        Some(CollectionCtor::Grid)
    } else if name == "Range"@ {
        Some(CollectionCtor::Range)
    } else {
        None
    }
}

/// The type declared under a name: the latest.
pub open spec fn type_named(types: Seq<(Seq<char>, Type)>, name: Seq<char>) -> Option<Type>
    decreases types.len(),
{
    if types.len() == 0 {
        None
    } else if types.last().0 == name {
        Some(types.last().1)
    } else {
        type_named(types.drop_last(), name)
    }
}

/// How many arguments a declared type takes.
pub open spec fn type_arity(t: Type) -> nat {
    match t {
        Type::Enum(_, a) => a.seq().len(),
        Type::Record(_, a) => a.seq().len(),
        _ => 0,
    }
}

/// A declared type at given arguments.
pub open spec fn at_args(t: Type, args: Seq<Type>) -> Type {
    match t {
        Type::Enum(d, _) => Type::Enum(d, TypeList::of(args)),
        Type::Record(d, _) => Type::Record(d, TypeList::of(args)),
        _ => t,
    }
}

/// A tuple of these types; of none, the unit.
pub open spec fn tuple_type(ts: Seq<Type>) -> Type {
    if ts.len() == 0 {
        Type::Unit
    } else {
        Type::Tuple(TypeList::of(ts))
    }
}

pub open spec fn wrong_type_arity(st: Inf, name: Ident, range: Span, takes: nat, given: nat) -> (
    Type,
    Inf,
) {
    fresh(
        report(
            st,
            range,
            DiagCode::WrongTypeArgumentCount,
            "`"@ + name.text@ + "` takes "@ + decimal_digits(takes) + " type argument(s)"@,
        ),
    )
}

/// A name that is no type, or no name at all.
pub open spec fn unknown_type(st: Inf, name: Ident) -> Inf {
    if in_scope(st.env, name.text@) is Some || in_scope(st.tops, name.text@) is Some {
        report(st, name.range, DiagCode::NotAType, "`"@ + name.text@ + "` is not a type"@)
    } else {
        report(
            st,
            name.range,
            DiagCode::UnknownType,
            "cannot find type `"@ + name.text@ + "`"@,
        )
    }
}

/// A type name at arguments.
pub open spec fn named_type(st: Inf, name: Ident, range: Span, args: Seq<Type>) -> (Type, Inf) {
    match type_named(st.types, name.text@) {
        Some(t) => if type_arity(t) == args.len() {
            (at_args(t, args), st)
        } else {
            wrong_type_arity(st, name, range, type_arity(t), args.len())
        },
        None => match plain_type(name.text@) {
            Some(t) => if args.len() == 0 {
                (t, st)
            } else {
                wrong_type_arity(st, name, range, 0, args.len())
            },
            None => match ctor_named(name.text@) {
                Some(c) => if c.spec_arity() == args.len() {
                    (Type::Collection(c, TypeList::of(args)), st)
                } else {
                    wrong_type_arity(st, name, range, c.spec_arity(), args.len())
                },
                None => fresh(
                    unknown_type(st, name),
                ),
            },
        },
    }
}

pub open spec fn type_of(st: Inf, t: TypeExpr) -> (Type, Inf)
    decreases t, 1nat,
{
    match t.kind {
        TypeExprKind::Name(name, args) => {
            let (ts, s1) = types_of(st, args@);
            named_type(s1, name, t.range, ts)
        },
        TypeExprKind::Tuple(parts) => {
            let (ts, s1) = types_of(st, parts@);
            (
                if ts.len() == 1 {
                    ts[0]
                } else {
                    tuple_type(ts)
                },
                s1,
            )
        },
        TypeExprKind::Func(params, result) => {
            let (ts, s1) = types_of(st, params@);
            let (r, s2) = boxed_type(s1, result);
            (Type::Func(TypeList::of(ts), Box::new(r)), s2)
        },
    }
}

/// A result type; a missing one is the unit.
pub open spec fn boxed_type(st: Inf, t: Option<Box<TypeExpr>>) -> (Type, Inf)
    decreases t, 0nat,
{
    match t {
        Some(t) => type_of(st, *t),
        None => (Type::Unit, st),
    }
}

pub open spec fn types_of(st: Inf, ts: Seq<TypeExpr>) -> (Seq<Type>, Inf)
    decreases ts, 0nat,
{
    if ts.len() == 0 {
        (Seq::empty(), st)
    } else {
        let (before, s1) = types_of(st, ts.drop_last());
        let (t, s2) = type_of(s1, ts.last());
        (before.push(t), s2)
    }
}

/// An annotation; a missing one leaves the type open.
pub open spec fn annotated(st: Inf, t: Option<TypeExpr>) -> (Type, Inf) {
    match t {
        Some(t) => type_of(st, t),
        None => fresh(st),
    }
}

// ---------------------------------------------------------------------------
// Patterns
// ---------------------------------------------------------------------------

/// A literal's type.
pub open spec fn literal_type(tok: LitToken) -> Option<Type> {
    match lit_value(tok) {
        Some(v) => Some(lit_type(v)),
        None => None,
    }
}

/// What a variant's own type says its enum is.
pub open spec fn variant_result(t: Type) -> Type {
    match t {
        Type::Func(_, r) => *r,
        _ => t,
    }
}

/// A variant's name settles what an open type is.
pub open spec fn settle_variant(st: Inf, name: Ident, ty: Type) -> Inf {
    match (st.db.resolve(ty), in_scope(st.env, name.text@)) {
        (Type::Var(_), Some(id)) => match lookup(st.names, id) {
            Some(s) => if s.kind == SymbolKind::EnumVariant {
                let (t, s1) = use_symbol(st, id, name.range);
                expect(s1, ty, variant_result(t), name.range)
            } else {
                st
            },
            None => st,
        },
        _ => st,
    }
}

/// The payload a variant pattern's parts stand for.
pub open spec fn payload_types(db: DbView, name: Seq<char>, ty: Type) -> Seq<Type> {
    match db.resolve(ty) {
        Type::Enum(d, args) => match db.variant_index(d, name) {
            Some(i) => db.payload_of(d, args, i),
            None => Seq::empty(),
        },
        _ => Seq::empty(),
    }
}

/// A bare name: a variant of the type, or a new name for the value.
pub open spec fn bind_name(st: Inf, name: Ident, ty: Type) -> Inf {
    let is_variant = match st.db.resolve(ty) {
        Type::Enum(d, _) => st.db.variant_index(d, name.text@) is Some,
        _ => false,
    };
    if is_variant {
        st
    } else {
        declare(st, name.text@, name.range, SymbolKind::Pattern, Some(monotype(ty)))
    }
}

/// The record type a pattern's head names. Field names alone make no record, so
/// a pattern without a head needs a record it can see.
pub open spec fn expect_head(st: Inf, head: Option<Ident>, ty: Type, range: Span) -> Inf {
    match head {
        Some(n) => match type_named(st.types, n.text@) {
            Some(t) => expect(st, ty, t, n.range),
            None => if plain_type(n.text@) is Some || ctor_named(n.text@) is Some || in_scope(
                st.env,
                n.text@,
            ) is Some {
                st
            } else {
                unknown_name(st, n)
            },
        },
        None => if st.db.resolve(ty) is Var {
            report(
                st,
                range,
                DiagCode::NotAPatternForType,
                "`{ … }` needs a record whose fields are known: name the record, or annotate the value"@,
            )
        } else {
            st
        },
    }
}

/// Whether one of the field patterns has the name.
pub open spec fn names_pattern(fs: Seq<FieldPattern>, name: Seq<char>) -> bool
    decreases fs.len(),
{
    fs.len() > 0 && (names_pattern(fs.drop_last(), name) || (match fs.last().name {
        Some(n) => n.text@ == name,
        None => false,
    }))
}

/// Reports a field pattern that names no field, or one that is named already.
pub open spec fn check_field_pattern(st: Inf, before: Seq<FieldPattern>, name: Ident, ty: Type) -> Inf {
    if names_pattern(before, name.text@) {
        report(
            st,
            name.range,
            DiagCode::DuplicateField,
            "field `"@ + name.text@ + "` is named twice"@,
        )
    } else if st.db.resolve(ty) is Record && field_of(st.db, ty, name.text@) is None {
        report(st, name.range, DiagCode::UnknownField, "no field `"@ + name.text@ + "`"@)
    } else {
        st
    }
}

/// The type of a record's field, when it has it.
pub open spec fn field_of(db: DbView, ty: Type, name: Seq<char>) -> Option<Type> {
    match db.resolve(ty) {
        Type::Record(d, args) => match db.field_index(d, name) {
            Some(i) => Some(db.field_type(d, args, i)),
            None => None,
        },
        _ => None,
    }
}

/// The type at position `i`; past the end nothing is known of it.
pub open spec fn type_at(st: Inf, ts: Seq<Type>, i: int) -> (Type, Inf) {
    if 0 <= i < ts.len() {
        (ts[i], st)
    } else {
        fresh(st)
    }
}

/// Declares the names of a pattern that matches values of type `ty`.
pub open spec fn bind_pattern(st: Inf, p: Pattern, ty: Type) -> Inf
    decreases p, 1nat,
{
    match p.kind {
        PatternKind::Wildcard => st,
        PatternKind::Literal(tok) => match tok {
            Some(tok) => match literal_type(tok) {
                Some(t) => expect(st, ty, t, p.range),
                None => st,
            },
            None => st,
        },
        PatternKind::Name(name) => bind_name(st, name, ty),
        PatternKind::Variant(name, subs) => {
            let s1 = settle_variant(st, name, ty);
            bind_patterns(s1, subs@, payload_types(s1.db, name.text@, ty))
        },
        PatternKind::Tuple(subs) => {
            let (ts, s1) = fresh_many(st, subs@.len());
            let s2 = expect(s1, ty, tuple_type(ts), p.range);
            bind_patterns(s2, subs@, ts)
        },
        PatternKind::Record(head, fields) => bind_fields(
            expect_head(st, head, ty, p.range),
            fields@,
            ty,
        ),
    }
}

pub open spec fn bind_patterns(st: Inf, ps: Seq<Pattern>, ts: Seq<Type>) -> Inf
    decreases ps, 0nat,
{
    if ps.len() == 0 {
        st
    } else {
        let s1 = bind_patterns(st, ps.drop_last(), ts);
        let (t, s2) = type_at(s1, ts, ps.len() - 1);
        bind_pattern(s2, ps.last(), t)
    }
}

pub open spec fn bind_fields(st: Inf, fs: Seq<FieldPattern>, ty: Type) -> Inf
    decreases fs, 0nat,
{
    if fs.len() == 0 {
        st
    } else {
        let s1 = bind_fields(st, fs.drop_last(), ty);
        let s2 = match fs.last().name {
            Some(n) => check_field_pattern(s1, fs.drop_last(), n, ty),
            None => s1,
        };
        bind_field(s2, fs.last(), ty)
    }
}

pub open spec fn bind_field(st: Inf, f: FieldPattern, ty: Type) -> Inf
    decreases f, 2nat,
{
    let known = match f.name {
        Some(n) => field_of(st.db, ty, n.text@),
        None => None,
    };
    let (t, s1) = match known {
        Some(t) => (t, st),
        None => fresh(st),
    };
    match f.pattern {
        Some(p) => bind_pattern(s1, p, t),
        None => match f.name {
            Some(n) => declare(s1, n.text@, n.range, SymbolKind::Pattern, Some(monotype(t))),
            None => s1,
        },
    }
}

// ---------------------------------------------------------------------------
// Operators and places
// ---------------------------------------------------------------------------

/// Where a part stands: its own range, or that of the whole without it.
pub open spec fn span_of(e: Option<Box<Expr>>, whole: Span) -> Span {
    match e {
        Some(e) => e.range,
        None => whole,
    }
}

/// Whether an operand is known to be a text.
pub open spec fn has_text(db: DbView, l: Type, r: Type) -> bool {
    db.resolve(l) == text_type() || db.resolve(r) == text_type()
}

/// The number type of an operation: `Float` as soon as one side is.
pub open spec fn number_type(db: DbView, l: Type, r: Type) -> Type {
    if db.resolve(l) == float_type() || db.resolve(r) == float_type() {
        float_type()
    } else {
        int_type()
    }
}

/// Both operands at one type.
pub open spec fn both_at(st: Inf, t: Type, l: Type, r: Type, at_l: Span, at_r: Span) -> Inf {
    expect(expect(st, t, l, at_l), t, r, at_r)
}

pub open spec fn bin_type(
    st: Inf,
    op: Option<BinToken>,
    l: Type,
    r: Type,
    at_l: Span,
    at_r: Span,
    whole: Span,
) -> (Type, Inf) {
    match op {
        None => fresh(st),
        Some(op) => match op {
            BinToken::Eq2 | BinToken::Neq => {
                let (t, s1) = join(st, l, r, at_r);
                (bool_type(), require(s1, Capability::Equatable, t, t, whole))
            },
            BinToken::Lt | BinToken::Gt | BinToken::LtEq | BinToken::GtEq => {
                let (t, s1) = join(st, l, r, at_r);
                (bool_type(), require(s1, Capability::Orderable, t, t, whole))
            },
            BinToken::Pipe2 | BinToken::Amp2 => (
                bool_type(),
                both_at(st, bool_type(), l, r, at_l, at_r),
            ),
            BinToken::Plus => if has_text(st.db, l, r) {
                (text_type(), both_at(st, text_type(), l, r, at_l, at_r))
            } else {
                let t = number_type(st.db, l, r);
                (t, both_at(st, t, l, r, at_l, at_r))
            },
            _ => if has_text(st.db, l, r) {
                (text_type(), undefined(st, text_type(), whole))
            } else {
                let t = number_type(st.db, l, r);
                let s1 = both_at(st, t, l, r, at_l, at_r);
                if op == BinToken::Percent && t == float_type() {
                    (t, undefined(s1, t, whole))
                } else {
                    (t, s1)
                }
            },
        },
    }
}

/// An operation its operands have no meaning for.
pub open spec fn undefined(st: Inf, t: Type, span: Span) -> Inf {
    report(
        st,
        span,
        DiagCode::UndefinedOperation,
        "this operation is not defined for `"@ + shown(st.db, t) + "`"@,
    )
}

pub open spec fn unary_type(st: Inf, op: Option<UnaryToken>, t: Type, span: Span) -> (Type, Inf) {
    match op {
        None => (t, st),
        Some(UnaryToken::Bang) => (bool_type(), expect(st, bool_type(), t, span)),
        Some(UnaryToken::Minus) => {
            let n = number_type(st.db, t, t);
            (n, expect(st, n, t, span))
        },
    }
}

/// What a store does with the old value.
#[derive(Clone, Copy, Debug, PartialEq, Eq, Structural)]
pub enum StoreOp {
    Replace,
    Add,
    Remainder,
    Combine,
}

/// Makes a stored value agree with what it is stored to. An operation on the old
/// value needs a number, or for `+` a text.
pub open spec fn store(
    st: Inf,
    how: StoreOp,
    target: Type,
    value: Type,
    at_value: Span,
    whole: Span,
) -> Inf {
    let t = st.db.resolve(target);
    if how == StoreOp::Replace || (how == StoreOp::Add && t == text_type()) {
        expect(st, target, value, at_value)
    } else if how == StoreOp::Remainder && t == float_type() {
        undefined(st, t, whole)
    } else {
        match numeric(t) {
            Answer::Yes => expect(st, target, value, at_value),
            Answer::No => report(
                st,
                whole,
                DiagCode::NotNumericOperation,
                "`"@ + shown(st.db, t) + "` is not a number"@,
            ),
            Answer::Later => expect(
                require(st, Capability::Numeric, target, target, whole),
                target,
                value,
                at_value,
            ),
        }
    }
}

/// What subscripting a `t` takes and gives.
pub open spec fn subscript(t: Type) -> Option<(Seq<Type>, Type)> {
    match t {
        Type::Scalar(ScalarType::Text) => Some(
            (seq![int_type()], Type::Scalar(ScalarType::Char)),
        ),
        Type::Collection(c, TypeList::Cons(h, rest)) => match c {
            CollectionCtor::Vec | CollectionCtor::Deque => Some((seq![int_type()], *h)),
            CollectionCtor::Counter => Some((seq![*h], int_type())),
            CollectionCtor::Grid => Some((seq![int_type(), int_type()], *h)),
            CollectionCtor::MapOf => match *rest {
                TypeList::Cons(v, _) => Some((seq![*h], *v)),
                TypeList::Nil => None,
            },
            _ => None,
        },
        _ => None,
    }
}

/// Makes each argument agree with its parameter.
pub open spec fn expect_each(st: Inf, want: Seq<Type>, got: Seq<Type>, es: Seq<Expr>) -> Inf
    decreases es.len(),
{
    if es.len() == 0 || want.len() != es.len() || got.len() != es.len() {
        st
    } else {
        expect(
            expect_each(st, want.drop_last(), got.drop_last(), es.drop_last()),
            want.last(),
            got.last(),
            es.last().range,
        )
    }
}

pub open spec fn not_indexable(st: Inf, t: Type, span: Span) -> (Type, Inf) {
    fresh(refuse(st, Capability::Indexable, t, span))
}

pub open spec fn index_type(st: Inf, recv: Type, is: Seq<Type>, es: Seq<Expr>, span: Span) -> (
    Type,
    Inf,
) {
    let t = st.db.resolve(recv);
    match t {
        Type::Var(_) => defer(st, Asked::Subscript, "[]"@, span, t, is),
        Type::Never => fresh(st),
        _ => match subscript(t) {
            Some((takes, gives)) => if takes.len() == es.len() {
                (
                    gives,
                    note_subscript(
                        expect_each(st, takes, is, es),
                        span,
                        "[]"@,
                        es.len(),
                        t,
                        gives,
                    ),
                )
            } else {
                not_indexable(st, t, span)
            },
            None => not_indexable(st, t, span),
        },
    }
}

pub open spec fn no_field(st: Inf, t: Type, name: Seq<char>, span: Span) -> Inf {
    report(
        st,
        span,
        DiagCode::NoFieldOnType,
        "`"@ + shown(st.db, t) + "` has no field `"@ + name + "`"@,
    )
}

pub open spec fn field_get(st: Inf, recv: Type, name: Option<Ident>) -> (Type, Inf) {
    let t = st.db.resolve(recv);
    match name {
        None => fresh(st),
        Some(n) => match t {
            Type::Var(_) => defer(st, Asked::Field, n.text@, n.range, t, Seq::empty()),
            Type::Never => fresh(st),
            _ => match field_of(st.db, t, n.text@) {
                Some(f) => (f, st),
                None => fresh(no_field(st, t, n.text@, n.range)),
            },
        },
    }
}

pub open spec fn tuple_get(st: Inf, recv: Type, index: Option<u64>, span: Span) -> (Type, Inf) {
    let t = st.db.resolve(recv);
    match t {
        Type::Var(_) => fresh(st),
        Type::Never => fresh(st),
        Type::Tuple(l) => match index {
            Some(i) => if i < l.seq().len() {
                (l.seq()[i as int], st)
            } else {
                no_element(st, t, span)
            },
            None => no_element(st, t, span),
        },
        _ => no_element(st, t, span),
    }
}

pub open spec fn no_element(st: Inf, t: Type, span: Span) -> (Type, Inf) {
    fresh(
        report(
            st,
            span,
            DiagCode::NoTupleElement,
            "`"@ + shown(st.db, t) + "` has no such element"@,
        ),
    )
}

// ---------------------------------------------------------------------------
// Names and calls
// ---------------------------------------------------------------------------

/// Whether a name only means something where it is called.
pub open spec fn called_only(s: SymbolView) -> bool {
    match s.scheme {
        Some(scheme) => scheme.body is Func && (s.kind == SymbolKind::Builtin || s.kind
            == SymbolKind::EnumVariant),
        None => false,
    }
}

/// Whether a name is a function with more than one type.
pub open spec fn generic_fn(s: SymbolView) -> bool {
    match s.scheme {
        Some(scheme) => scheme.binders.len() > 0 && s.kind == SymbolKind::Fn,
        None => false,
    }
}

/// How to use a name that has to be called.
pub open spec fn remedy(name: Seq<char>, t: Type) -> Seq<char> {
    match t {
        Type::Func(TypeList::Nil, _) => "call it: `"@ + name + "()`"@,
        _ => "write `|x| "@ + name + "(x)`"@,
    }
}

pub open spec fn path_report(st: Inf, name: Ident, id: SymbolId, t: Type) -> Inf {
    match lookup(st.names, id) {
        Some(s) => if called_only(s) {
            report(
                st,
                name.range,
                DiagCode::ConstructorValue,
                "`"@ + name.text@ + "` is not a value; "@ + remedy(name.text@, t),
            )
        } else if generic_fn(s) {
            report(
                st,
                name.range,
                DiagCode::GenericFunctionValue,
                "`"@ + name.text@ + "` is generic and has to be called"@,
            )
        } else {
            st
        },
        None => st,
    }
}

/// A name used as a value.
pub open spec fn infer_name(st: Inf, name: Ident) -> (Type, Inf) {
    match in_scope(st.env, name.text@) {
        Some(id) => {
            let (t, s1) = use_symbol(st, id, name.range);
            (t, path_report(refer(s1, name.range, id, t), name, id, t))
        },
        None => match ctor_named(name.text@) {
            Some(_) => fresh(
                report(
                    st,
                    name.range,
                    DiagCode::ConstructorValue,
                    "`"@ + name.text@ + "` is not a value; call it: `"@ + name.text@ + "()`"@,
                ),
            ),
            None => fresh(unknown_name(st, name)),
        },
    }
}

pub open spec fn wrong_count(st: Inf, takes: nat, given: nat, span: Span) -> Inf {
    report(
        st,
        span,
        DiagCode::ArgumentCount,
        "this function takes "@ + decimal_digits(takes) + " argument(s), but "@ + decimal_digits(
            given,
        ) + " were given"@,
    )
}

/// Calling a value of type `f`.
pub open spec fn call_type(st: Inf, f: Type, got: Seq<Type>, es: Seq<Expr>, span: Span) -> (
    Type,
    Inf,
) {
    let t = st.db.resolve(f);
    match t {
        Type::Func(ps, r) => if ps.seq().len() == es.len() {
            (*r, expect_each(st, ps.seq(), got, es))
        } else {
            (*r, wrong_count(st, ps.seq().len(), es.len(), span))
        },
        Type::Var(_) => {
            let (r, s1) = fresh(st);
            (r, expect(s1, t, Type::Func(TypeList::of(got), Box::new(r)), span))
        },
        _ => fresh(
            report(
                st,
                span,
                DiagCode::NotCallable,
                "`"@ + shown(st.db, t) + "` cannot be called"@,
            ),
        ),
    }
}

pub open spec fn note_call(st: Inf, name: Ident, callee: SymbolId, got: Seq<Type>, result: Type) -> Inf {
    Inf {
        call_sites: st.call_sites.insert(
            name.range,
            CallSite { callee, arg_types: TypeList::of(got), result },
        ),
        calls: match st.inside {
            Some((f, _)) => st.calls.push((f, callee)),
            None => st.calls,
        },
        ..st
    }
}

/// Whether two types are made by the same constructor.
pub open spec fn same_head(a: Type, b: Type) -> bool {
    match (a, b) {
        (Type::Scalar(x), Type::Scalar(y)) => x == y,
        (Type::Collection(c, _), Type::Collection(d, _)) => c == d,
        (Type::Enum(d, _), Type::Enum(f, _)) => d == f,
        (Type::Record(d, _), Type::Record(f, _)) => d == f,
        (Type::Tuple(_), Type::Tuple(_)) => true,
        (Type::Unit, Type::Unit) => true,
        _ => false,
    }
}

/// Whether a row is for a receiver of type `t`, a name and a number of arguments.
pub open spec fn row_fits(row: MethodRowView, name: Seq<char>, count: nat, t: Type) -> bool {
    row.name == name && match row.scheme.body {
        Type::Func(ps, _) => match ps {
            TypeList::Cons(recv, rest) => rest.seq().len() == count && if row.entry.receiver_is_iterable {
                item_of(t) is Some
            } else {
                same_head(*recv, t)
            },
            TypeList::Nil => false,
        },
        _ => false,
    }
}

/// The first row that fits.
pub open spec fn first_row(rows: Seq<MethodRowView>, name: Seq<char>, count: nat, t: Type) -> Option<nat>
    decreases rows.len(),
{
    if rows.len() == 0 {
        None
    } else {
        match first_row(rows.drop_last(), name, count, t) {
            Some(i) => Some(i),
            None => if row_fits(rows.last(), name, count, t) {
                Some((rows.len() - 1) as nat)
            } else {
                None
            },
        }
    }
}

/// Whether some type has a method of the name and number of arguments.
pub open spec fn is_known(rows: Seq<MethodRowView>, name: Seq<char>, count: nat) -> bool
    decreases rows.len(),
{
    rows.len() > 0 && (is_known(rows.drop_last(), name, count) || (rows.last().name == name
        && takes_args(rows.last().scheme.body, count)))
}

/// Whether a row's type takes a receiver and `count` arguments.
pub open spec fn takes_args(body: Type, count: nat) -> bool {
    match body {
        Type::Func(ps, _) => match ps {
            TypeList::Cons(_, rest) => rest.seq().len() == count,
            TypeList::Nil => false,
        },
        _ => false,
    }
}

pub open spec fn no_such_method(st: Inf, name: Ident, count: nat) -> Inf {
    report(
        st,
        name.range,
        DiagCode::NoMethodOnType,
        "no type has a method `"@ + name.text@ + "` taking "@ + decimal_digits(count)
            + " argument(s)"@,
    )
}

/// A row at a receiver: what its arguments have to be, and its result.
pub open spec fn use_row(st: Inf, row: MethodRowView, t: Type, span: Span) -> (Seq<Type>, Type, Inf) {
    let (args, s1) = fresh_many(st, row.scheme.binders.len());
    let f = fill_params(row.scheme.body, row.scheme.binders, args);
    match f {
        Type::Func(ps, r) => match ps {
            TypeList::Cons(recv, rest) => (
                rest.seq(),
                *r,
                settle_all(
                    expect(s1, *recv, t, span),
                    chosen_needs(row.scheme.needs, row.scheme.binders, args, span),
                ),
            ),
            TypeList::Nil => (Seq::empty(), *r, s1),
        },
        _ => (Seq::empty(), f, s1),
    }
}

pub open spec fn no_method(st: Inf, name: Seq<char>, span: Span, t: Type, count: nat) -> Inf {
    report(
        st,
        span,
        DiagCode::NoMethodOnType,
        "no method `"@ + name + "` on type `"@ + shown(st.db, t) + "` taking "@
            + decimal_digits(count) + " argument(s)"@,
    )
}

pub open spec fn note_method(st: Inf, span: Span, entry: MethodEntry, receiver: Type, result: Type) -> Inf {
    Inf {
        method_refs: st.method_refs.insert(span, MethodRef { entry, receiver, result }),
        ..st
    }
}

/// Notes the row of a subscript, when there is one.
pub open spec fn note_subscript(
    st: Inf,
    span: Span,
    name: Seq<char>,
    count: nat,
    receiver: Type,
    result: Type,
) -> Inf {
    match first_row(st.methods, name, count, receiver) {
        Some(i) => note_method(st, span, st.methods[i as int].entry, receiver, result),
        None => st,
    }
}

/// How many arguments a collection is made with, besides none.
pub open spec fn sized_arity(c: CollectionCtor) -> nat {
    match c {
        CollectionCtor::Vec => 2,
        CollectionCtor::Grid => 3,
        _ => 0,
    }
}

/// The type arguments of a constructor call.
pub open spec fn ctor_args(st: Inf, c: CollectionCtor, name: Ident, ts: Seq<Type>) -> (Seq<Type>, Inf) {
    if ts.len() == c.spec_arity() {
        (ts, st)
    } else if ts.len() == 0 {
        fresh_many(st, c.spec_arity())
    } else {
        let (_, s1) = wrong_type_arity(st, name, name.range, c.spec_arity(), ts.len());
        fresh_many(s1, c.spec_arity())
    }
}

/// The sizes of a sized collection are numbers, and what fills it is an item.
pub open spec fn sized_params(c: CollectionCtor, items: Seq<Type>) -> Seq<Type> {
    match c {
        CollectionCtor::Vec => seq![int_type(), items[0]],
        CollectionCtor::Grid => seq![int_type(), int_type(), items[0]],
        _ => Seq::empty(),
    }
}

/// Making a collection: empty, or of a size.
pub open spec fn construct(
    st: Inf,
    c: CollectionCtor,
    items: Seq<Type>,
    got: Seq<Type>,
    es: Seq<Expr>,
    span: Span,
) -> (Type, Inf) {
    let t = Type::Collection(c, TypeList::of(items));
    if es.len() == 0 {
        (t, st)
    } else if es.len() == sized_arity(c) {
        (t, expect_each(st, sized_params(c, items), got, es))
    } else {
        (t, wrong_count(st, sized_arity(c), es.len(), span))
    }
}

// ---------------------------------------------------------------------------
// Control flow
// ---------------------------------------------------------------------------

/// Closes the scope that opened when `n` names were in scope.
pub open spec fn leave(st: Inf, n: nat, scope: ScopeId) -> Inf {
    if n <= st.env.len() {
        Inf { env: st.env.take(n as int), scope, ..st }
    } else {
        Inf { scope, ..st }
    }
}

pub open spec fn enter_loop(st: Inf, valued: bool) -> Inf {
    Inf { breaks: st.breaks.push(LoopFrame { valued, left: None }), ..st }
}

/// Leaves a loop, with what it was left with.
pub open spec fn leave_loop(st: Inf) -> (Option<Type>, Inf) {
    if st.breaks.len() == 0 {
        (None, st)
    } else {
        (st.breaks.last().left, Inf { breaks: st.breaks.drop_last(), ..st })
    }
}

pub open spec fn misplaced(st: Inf, code: DiagCode, what: Seq<char>, span: Span) -> Inf {
    report(st, span, code, "`"@ + what + "` has nothing to leave"@)
}

/// A loop left with a value of type `t`, written out or not.
pub open spec fn note_break(st: Inf, given: bool, t: Type, at_value: Span, whole: Span) -> Inf {
    if st.breaks.len() == 0 {
        misplaced(st, DiagCode::BreakOutsideLoop, "break"@, whole)
    } else if given && !st.breaks.last().valued {
        report(
            st,
            at_value,
            DiagCode::BreakValueOutsideLoop,
            "only a `loop` is left with a value"@,
        )
    } else {
        let (j, s1) = match st.breaks.last().left {
            None => (t, st),
            Some(b) => join(st, b, t, at_value),
        };
        Inf {
            breaks: st.breaks.drop_last().push(
                LoopFrame { valued: st.breaks.last().valued, left: Some(j) },
            ),
            ..s1
        }
    }
}

pub open spec fn note_continue(st: Inf, whole: Span) -> Inf {
    if st.breaks.len() == 0 {
        misplaced(st, DiagCode::BreakOutsideLoop, "continue"@, whole)
    } else {
        st
    }
}

pub open spec fn note_return(st: Inf, t: Type, at_value: Span, whole: Span) -> Inf {
    match st.result {
        None => misplaced(st, DiagCode::ReturnOutsideFunction, "return"@, whole),
        Some(r) => expect(st, r, t, at_value),
    }
}

/// Enters a function that returns `r`.
pub open spec fn enter_fn(st: Inf, r: Type) -> Inf {
    Inf { result: Some(r), breaks: Seq::empty(), ..enter(st) }
}

/// Back to where `outer` was.
pub open spec fn leave_fn(st: Inf, outer: Inf) -> Inf {
    leave(
        Inf { result: outer.result, breaks: outer.breaks, ..st },
        outer.env.len(),
        outer.scope,
    )
}

/// The value of a loop: what it is left with, if it is left at all.
pub open spec fn loop_type(b: Option<Type>) -> Type {
    match b {
        Some(t) => t,
        None => Type::Never,
    }
}

// ---------------------------------------------------------------------------
// Records
// ---------------------------------------------------------------------------

/// Whether one of the fields has the name.
pub open spec fn names_field(fs: Seq<FieldInit>, name: Seq<char>) -> bool
    decreases fs.len(),
{
    fs.len() > 0 && (names_field(fs.drop_last(), name) || (match fs.last().name {
        Some(n) => n.text@ == name,
        None => false,
    }))
}

/// Reports each declared field that a literal leaves out.
pub open spec fn report_missing(st: Inf, names: Seq<Seq<char>>, fs: Seq<FieldInit>, span: Span) -> Inf
    decreases names.len(),
{
    if names.len() == 0 {
        st
    } else {
        let s1 = report_missing(st, names.drop_last(), fs, span);
        if names_field(fs, names.last()) {
            s1
        } else {
            report(
                s1,
                span,
                DiagCode::MissingField,
                "missing field `"@ + names.last() + "`"@,
            )
        }
    }
}

/// Checks one initializer of a record literal against the record type.
pub open spec fn check_field(
    st: Inf,
    before: Seq<FieldInit>,
    name: Ident,
    ty: Type,
    got: Type,
    at_value: Span,
) -> Inf {
    if names_field(before, name.text@) {
        report(
            st,
            name.range,
            DiagCode::DuplicateField,
            "field `"@ + name.text@ + "` is given twice"@,
        )
    } else {
        match field_of(st.db, ty, name.text@) {
            Some(t) => expect(st, t, got, at_value),
            None => report(
                st,
                name.range,
                DiagCode::UnknownField,
                "no field `"@ + name.text@ + "`"@,
            ),
        }
    }
}

/// The declared fields of a record type.
pub open spec fn declared_fields(db: DbView, ty: Type) -> Seq<Seq<char>> {
    match ty {
        Type::Record(d, _) => match db.record_def(d) {
            Some(r) => field_names(r),
            None => Seq::empty(),
        },
        _ => Seq::empty(),
    }
}

pub open spec fn not_a_struct(st: Inf, name: Ident, what: Seq<char>) -> Inf {
    report(
        st,
        name.range,
        DiagCode::NotAStruct,
        "`"@ + name.text@ + "` is "@ + what + ", not a struct"@,
    )
}

/// What a kind of name is called.
pub open spec fn kind_word(kind: SymbolKind) -> Seq<char> {
    match kind {
        SymbolKind::Fn => "a function"@,
        SymbolKind::Param => "a parameter"@,
        SymbolKind::EnumVariant => "an enum variant"@,
        SymbolKind::Builtin => "a built-in name"@,
        _ => "a binding"@,
    }
}

pub open spec fn symbol_word(st: Inf, id: SymbolId) -> Seq<char> {
    match lookup(st.names, id) {
        Some(s) => kind_word(s.kind),
        None => "a binding"@,
    }
}

/// The struct a record literal's head names.
pub open spec fn head_type(st: Inf, head: Option<Ident>) -> (Option<Type>, Inf) {
    match head {
        None => (None, st),
        Some(n) => match type_named(st.types, n.text@) {
            Some(t) => if t is Record {
                (Some(t), st)
            } else {
                (None, not_a_struct(st, n, "an enum type"@))
            },
            None => match in_scope(st.env, n.text@) {
                Some(id) => (None, not_a_struct(st, n, symbol_word(st, id))),
                None => (None, unknown_name(st, n)),
            },
        },
    }
}

// ---------------------------------------------------------------------------
// Expressions
// ---------------------------------------------------------------------------

/// An expression: its type, which is recorded under its key.
pub open spec fn infer_expr(st: Inf, e: Expr) -> (Type, Inf)
    decreases e, 2nat,
{
    let (t, s1) = infer_kind(st, e);
    (t, record(s1, e, t))
}

/// A part that may be missing: nothing is known of it.
pub open spec fn infer_opt(st: Inf, e: Option<Box<Expr>>) -> (Type, Inf)
    decreases e, 0nat,
{
    match e {
        Some(e) => infer_expr(st, *e),
        None => fresh(st),
    }
}

/// A part that may be left out: without it the value is the unit.
pub open spec fn infer_or_unit(st: Inf, e: Option<Box<Expr>>) -> (Type, Inf)
    decreases e, 0nat,
{
    match e {
        Some(e) => infer_expr(st, *e),
        None => (Type::Unit, st),
    }
}

/// A part that has to have a given type.
pub open spec fn infer_at(st: Inf, e: Option<Box<Expr>>, want: Type, whole: Span) -> Inf
    decreases e, 1nat,
{
    let (t, s1) = infer_opt(st, e);
    expect(s1, want, t, span_of(e, whole))
}

pub open spec fn infer_list(st: Inf, es: Seq<Expr>) -> (Seq<Type>, Inf)
    decreases es, 0nat,
{
    if es.len() == 0 {
        (Seq::empty(), st)
    } else {
        let (ts, s1) = infer_list(st, es.drop_last());
        let (t, s2) = infer_expr(s1, es.last());
        (ts.push(t), s2)
    }
}

/// The items of a list, each of the list's one type.
pub open spec fn infer_items(st: Inf, es: Seq<Expr>, item: Type) -> Inf
    decreases es, 0nat,
{
    if es.len() == 0 {
        st
    } else {
        let s1 = infer_items(st, es.drop_last(), item);
        let (t, s2) = infer_expr(s1, es.last());
        expect(s2, item, t, es.last().range)
    }
}

pub open spec fn infer_parts(st: Inf, ps: Seq<InterpPart>) -> Inf
    decreases ps, 0nat,
{
    if ps.len() == 0 {
        st
    } else {
        let s1 = infer_parts(st, ps.drop_last());
        match ps.last() {
            InterpPart::Fragment(_) => s1,
            InterpPart::Hole(e) => infer_expr(s1, e).1,
        }
    }
}

pub open spec fn infer_literal(st: Inf, tok: Option<LitToken>, range: Span) -> (Type, Inf) {
    match tok {
        None => fresh(st),
        Some(tok) => match tok {
            LitToken::Int(None, digits) => (
                int_type(),
                Inf {
                    diags: st.diags.push(
                        out_of_range(FileSpan { file: st.file, span: range }, digits@),
                    ),
                    ..st
                },
            ),
            LitToken::Template => fresh(
                report(
                    st,
                    range,
                    DiagCode::TemplateValue,
                    "a template is only read by a parser"@,
                ),
            ),
            _ => match literal_type(tok) {
                Some(t) => (t, st),
                None => fresh(st),
            },
        },
    }
}

pub open spec fn infer_kind(st: Inf, e: Expr) -> (Type, Inf)
    decreases e, 1nat,
{
    match e.kind {
        ExprKind::Literal(tok) => infer_literal(st, tok, e.range),
        ExprKind::Interp(parts) => (text_type(), infer_parts(st, parts@)),
        ExprKind::Path(name) => match name {
            Some(n) => infer_name(st, n),
            None => fresh(st),
        },
        ExprKind::Bin { lhs, op, rhs } => {
            let (l, s1) = infer_opt(st, lhs);
            let (r, s2) = infer_opt(s1, rhs);
            bin_type(s2, op, l, r, span_of(lhs, e.range), span_of(rhs, e.range), e.range)
        },
        ExprKind::Range { start, end, .. } => {
            let s1 = infer_at(st, start, int_type(), e.range);
            let s2 = infer_at(s1, end, int_type(), e.range);
            (Type::Collection(CollectionCtor::Range, TypeList::Nil), s2)
        },
        ExprKind::Unary { op, operand } => {
            let (t, s1) = infer_opt(st, operand);
            unary_type(s1, op, t, span_of(operand, e.range))
        },
        ExprKind::Paren(inner) => infer_opt(st, inner),
        ExprKind::Block(b) => infer_block(st, b),
        ExprKind::If { .. } => infer_if(st, e),
        ExprKind::While { cond, body } => {
            let s1 = infer_at(st, cond, bool_type(), e.range);
            (Type::Unit, infer_loop(s1, body, false).1)
        },
        ExprKind::For { .. } => infer_for(st, e),
        ExprKind::Loop { body } => {
            let (b, s1) = infer_loop(st, body, true);
            (loop_type(b), s1)
        },
        ExprKind::Break(value) => {
            let (t, s1) = infer_or_unit(st, value);
            (Type::Never, note_break(s1, value is Some, t, span_of(value, e.range), e.range))
        },
        ExprKind::Continue => (Type::Never, note_continue(st, e.range)),
        ExprKind::Return(value) => {
            let (t, s1) = infer_or_unit(st, value);
            (Type::Never, note_return(s1, t, span_of(value, e.range), e.range))
        },
        ExprKind::Call { .. } => infer_call(st, e),
        ExprKind::MethodCall { .. } => infer_method(st, e),
        ExprKind::Tuple(es) => {
            let (ts, s1) = infer_list(st, es@);
            (tuple_type(ts), s1)
        },
        ExprKind::List(es) => {
            let (item, s1) = fresh(st);
            (
                Type::Collection(CollectionCtor::Vec, TypeList::of(seq![item])),
                infer_items(s1, es@, item),
            )
        },
        ExprKind::Read(body) => infer_parser(st, body),
        ExprKind::Parse { text, parser } => infer_parser(
            infer_at(st, text, text_type(), e.range),
            parser,
        ),
        ExprKind::RecordLit { .. } => infer_record(st, e),
        ExprKind::FieldGet { receiver, name } => {
            let (t, s1) = infer_opt(st, receiver);
            field_get(s1, t, name)
        },
        ExprKind::TupleIndex { receiver, index } => {
            let (t, s1) = infer_opt(st, receiver);
            tuple_get(s1, t, index, e.range)
        },
        ExprKind::Index { receiver, indices } => {
            let (t, s1) = infer_opt(st, receiver);
            let (is, s2) = infer_list(s1, indices@);
            index_type(s2, t, is, indices@, e.range)
        },
        ExprKind::Match { scrutinee, arms } => {
            let (t, s1) = infer_opt(st, scrutinee);
            infer_arms(s1, arms@, t, e.range)
        },
        ExprKind::Closure { .. } => infer_closure(st, e, None),
        ExprKind::Error => fresh(st),
    }
}

/// A parser body: the type its plan produces, and its own reports.
pub open spec fn infer_parser(st: Inf, body: Option<ParserBody>) -> (Type, Inf) {
    match body {
        None => fresh(st),
        Some(b) => {
            let s1 = Inf {
                diags: st.diags + diag_views(b.reports@),
                parser_exprs: match b.index {
                    Some(x) => st.parser_exprs.push(x@),
                    None => st.parser_exprs,
                },
                ..st
            };
            match b.result_type {
                Some(t) => (t, s1),
                None => fresh(s1),
            }
        },
    }
}

/// A conditional. Without an `else` there is no value for it to have.
pub open spec fn infer_if(st: Inf, e: Expr) -> (Type, Inf)
    decreases e, 0nat,
{
    match e.kind {
        ExprKind::If { cond, then_branch, else_branch } => {
            let s1 = infer_at(st, cond, bool_type(), e.range);
            let (t, s2) = infer_opt_block(s1, then_branch);
            let at_then = block_span(then_branch, e.range);
            match else_branch {
                None => (Type::Unit, expect(s2, Type::Unit, t, at_then)),
                Some(b) => {
                    let (u, s3) = infer_opt(s2, else_branch);
                    join(s3, t, u, b.range)
                },
            }
        },
        _ => (Type::Unit, st),
    }
}

pub open spec fn block_span(b: Option<Block>, whole: Span) -> Span {
    match b {
        Some(b) => tail_span(b),
        None => whole,
    }
}

/// Where a block's value stands.
pub open spec fn tail_span(b: Block) -> Span {
    if b.stmts@.len() == 0 {
        b.range
    } else {
        match b.stmts@.last().kind {
            StmtKind::Expr(Some(e)) => e.range,
            _ => b.range,
        }
    }
}

/// The body of a loop, and what the loop is left with.
pub open spec fn infer_loop(st: Inf, body: Option<Block>, valued: bool) -> (Option<Type>, Inf)
    decreases body, 1nat,
{
    leave_loop(infer_opt_block(enter_loop(st, valued), body).1)
}

pub open spec fn infer_opt_block(st: Inf, b: Option<Block>) -> (Type, Inf)
    decreases b, 0nat,
{
    match b {
        Some(b) => infer_block(st, b),
        None => fresh(st),
    }
}

pub open spec fn bind_opt(st: Inf, p: Option<Pattern>, ty: Type) -> Inf {
    match p {
        Some(p) => bind_pattern(st, p, ty),
        None => st,
    }
}

/// Declares the names of a `for` header, whose range is given the item's type.
pub open spec fn bind_item(st: Inf, p: Option<Pattern>, item: Type) -> Inf {
    match p {
        Some(p) => bind_pattern(
            Inf { ref_types: st.ref_types.insert(p.range, item), ..st },
            p,
            item,
        ),
        None => st,
    }
}

/// A walk over what `iter` yields.
pub open spec fn infer_for(st: Inf, e: Expr) -> (Type, Inf)
    decreases e, 0nat,
{
    match e.kind {
        ExprKind::For { binding, iter, body } => {
            let (t, s1) = infer_opt(st, iter);
            let (item, s2) = fresh(s1);
            let s3 = require(s2, Capability::Iterable, t, item, span_of(iter, e.range));
            let s4 = bind_item(enter(s3), binding, item);
            let (_, s5) = infer_loop(s4, body, false);
            (Type::Unit, leave(s5, s3.env.len(), s3.scope))
        },
        _ => (Type::Unit, st),
    }
}

/// A call of a name, or of a value.
pub open spec fn infer_call(st: Inf, e: Expr) -> (Type, Inf)
    decreases e, 0nat,
{
    match e.kind {
        ExprKind::Call { callee, type_args, callee_expr, args } => match callee {
            Some(name) => match in_scope(st.env, name.text@) {
                Some(id) => {
                    let (f, s1) = use_symbol(st, id, name.range);
                    let (got, s2) = infer_list(refer(s1, name.range, id, f), args@);
                    let (r, s3) = call_type(s2, f, got, args@, e.range);
                    (r, note_call(s3, name, id, got, r))
                },
                None => match ctor_named(name.text@) {
                    Some(c) => {
                        let (ts, s1) = types_of(st, type_args@);
                        let (items, s2) = ctor_args(s1, c, name, ts);
                        let (got, s3) = infer_list(s2, args@);
                        construct(s3, c, items, got, args@, e.range)
                    },
                    None => fresh(infer_list(unknown_name(st, name), args@).1),
                },
            },
            None => {
                let (f, s1) = infer_opt(st, callee_expr);
                let (got, s2) = infer_list(s1, args@);
                call_type(s2, f, got, args@, e.range)
            },
        },
        _ => (Type::Unit, st),
    }
}

/// Arguments, each at the type wanted of it.
pub open spec fn infer_args(st: Inf, es: Seq<Expr>, wants: Seq<Type>) -> Inf
    decreases es, 0nat,
{
    if es.len() == 0 {
        st
    } else {
        let s1 = infer_args(st, es.drop_last(), wants);
        let (want, s2) = type_at(s1, wants, es.len() - 1);
        infer_arg(s2, es.last(), want)
    }
}

pub open spec fn infer_arg(st: Inf, e: Expr, want: Type) -> Inf
    decreases e, 3nat,
{
    match e.kind {
        ExprKind::Closure { .. } => {
            let (t, s1) = infer_closure(st, e, Some(want));
            record(s1, e, t)
        },
        _ => {
            let (t, s1) = infer_expr(st, e);
            expect(s1, want, t, e.range)
        },
    }
}

/// A method call: the first row for the receiver. While nothing is known of the
/// receiver, the call waits.
pub open spec fn infer_method(st: Inf, e: Expr) -> (Type, Inf)
    decreases e, 0nat,
{
    match e.kind {
        ExprKind::MethodCall { receiver, name, args } => {
            let (recv, s1) = infer_opt(st, receiver);
            let t = s1.db.resolve(recv);
            match name {
                None => fresh(infer_list(s1, args@).1),
                Some(n) => if t is Never {
                    fresh(infer_list(s1, args@).1)
                } else if t is Var {
                    let (got, s2) = infer_list(s1, args@);
                    if is_known(s2.methods, n.text@, got.len()) {
                        defer(s2, Asked::Method, n.text@, n.range, t, got)
                    } else {
                        fresh(no_such_method(s2, n, got.len()))
                    }
                } else {
                    match first_row(s1.methods, n.text@, args@.len(), t) {
                        None => fresh(
                            no_method(infer_list(s1, args@).1, n.text@, n.range, t, args@.len()),
                        ),
                        Some(i) => {
                            let row = s1.methods[i as int];
                            let (wants, r, s2) = use_row(s1, row, t, n.range);
                            let s3 = infer_args(s2, args@, wants);
                            (r, note_method(s3, n.range, row.entry, t, r))
                        },
                    }
                },
            }
        },
        _ => (Type::Unit, st),
    }
}

/// A record literal names every declared field once.
pub open spec fn infer_record(st: Inf, e: Expr) -> (Type, Inf)
    decreases e, 0nat,
{
    match e.kind {
        ExprKind::RecordLit { head, fields } => {
            let (ty, s1) = head_type(st, head);
            match ty {
                Some(ty) => {
                    let s2 = infer_fields(s1, fields@, ty);
                    (ty, report_missing(s2, declared_fields(s2.db, ty), fields@, e.range))
                },
                None => {
                    let (ty, s2) = fresh(s1);
                    (ty, infer_values(s2, fields@))
                },
            }
        },
        _ => (Type::Unit, st),
    }
}

/// What a field is initialized with; a field alone is the variable of its name.
pub open spec fn infer_field(st: Inf, f: FieldInit) -> (Type, Inf)
    decreases f, 1nat,
{
    match f.expr {
        Some(_) => infer_opt(st, f.expr),
        None => match f.name {
            Some(n) => infer_name(st, n),
            None => fresh(st),
        },
    }
}

pub open spec fn infer_fields(st: Inf, fs: Seq<FieldInit>, ty: Type) -> Inf
    decreases fs, 0nat,
{
    if fs.len() == 0 {
        st
    } else {
        let s1 = infer_fields(st, fs.drop_last(), ty);
        let f = fs.last();
        let (t, s2) = infer_field(s1, f);
        match f.name {
            Some(n) => check_field(s2, fs.drop_last(), n, ty, t, span_of(f.expr, n.range)),
            None => s2,
        }
    }
}

pub open spec fn infer_values(st: Inf, fs: Seq<FieldInit>) -> Inf
    decreases fs, 0nat,
{
    if fs.len() == 0 {
        st
    } else {
        infer_field(infer_values(st, fs.drop_last()), fs.last()).1
    }
}

/// The arms of a match, and the type they share.
pub open spec fn infer_arms(st: Inf, arms: Seq<MatchArm>, ty: Type, whole: Span) -> (Type, Inf)
    decreases arms, 0nat,
{
    if arms.len() == 0 {
        (Type::Never, st)
    } else {
        let (before, s1) = infer_arms(st, arms.drop_last(), ty, whole);
        let (t, s2) = infer_arm(s1, arms.last(), ty);
        join(s2, before, t, span_of(arms.last().body, whole))
    }
}

pub open spec fn infer_arm(st: Inf, arm: MatchArm, ty: Type) -> (Type, Inf)
    decreases arm, 1nat,
{
    let s1 = bind_opt(enter(st), arm.pattern, ty);
    let (t, s2) = infer_opt(s1, arm.body);
    (t, leave(s2, st.env.len(), st.scope))
}

/// One parameter. One without a name of its own is still declared, where its
/// pattern stands.
pub open spec fn bind_param(st: Inf, p: Param, ty: Type) -> Inf {
    match p.name {
        Some(n) => declare(st, n.text@, n.range, SymbolKind::Param, Some(monotype(ty))),
        None => match p.wildcard {
            Some(range) => declare(st, "_"@, range, SymbolKind::Param, Some(monotype(ty))),
            None => match p.pattern {
                Some(pat) => bind_pattern(
                    declare(st, "_"@, pat.range, SymbolKind::Param, Some(monotype(ty))),
                    pat,
                    ty,
                ),
                None => st,
            },
        },
    }
}

/// The types of parameters.
pub open spec fn param_types(st: Inf, ps: Seq<Param>) -> (Seq<Type>, Inf)
    decreases ps.len(),
{
    if ps.len() == 0 {
        (Seq::empty(), st)
    } else {
        let (ts, s1) = param_types(st, ps.drop_last());
        let (t, s2) = annotated(s1, ps.last().annotation);
        (ts.push(t), s2)
    }
}

pub open spec fn bind_params(st: Inf, ps: Seq<Param>, ts: Seq<Type>) -> Inf
    decreases ps.len(),
{
    if ps.len() == 0 {
        st
    } else {
        let s1 = bind_params(st, ps.drop_last(), ts);
        let (t, s2) = type_at(s1, ts, ps.len() - 1);
        bind_param(s2, ps.last(), t)
    }
}

/// A closure, where a type may be wanted of it. What is wanted is known before
/// the body is looked at.
pub open spec fn infer_closure(st: Inf, e: Expr, want: Option<Type>) -> (Type, Inf)
    decreases e, 0nat,
{
    match e.kind {
        ExprKind::Closure { params, body } => {
            let (ts, s1) = param_types(st, params@);
            let (r, s2) = fresh(s1);
            let t = Type::Func(TypeList::of(ts), Box::new(r));
            let s3 = match want {
                Some(w) => expect(s2, w, t, e.range),
                None => s2,
            };
            let s4 = bind_params(enter_fn(s3, r), params@, ts);
            let s5 = infer_at(s4, body, r, e.range);
            (t, leave_fn(s5, s3))
        },
        _ => (Type::Unit, st),
    }
}

// ---------------------------------------------------------------------------
// Statements
// ---------------------------------------------------------------------------

/// A block's value is its last statement, when that is an expression.
pub open spec fn infer_block(st: Inf, b: Block) -> (Type, Inf)
    decreases b, 0nat,
{
    let (t, s1) = infer_stmts(enter(st), b.stmts@);
    (t, leave(s1, st.env.len(), st.scope))
}

pub open spec fn infer_stmts(st: Inf, stmts: Seq<Stmt>) -> (Type, Inf)
    decreases stmts, 0nat,
{
    if stmts.len() == 0 {
        (Type::Unit, st)
    } else {
        infer_stmt(infer_stmts(st, stmts.drop_last()).1, stmts.last())
    }
}

pub open spec fn infer_stmt(st: Inf, s: Stmt) -> (Type, Inf)
    decreases s, 3nat,
{
    match s.kind {
        StmtKind::Var { name, annotation, init } => (
            Type::Unit,
            infer_var(st, name, annotation, init, s.range),
        ),
        StmtKind::Assign { name, op, value } => {
            let (t, s1) = infer_opt(st, value);
            (Type::Unit, assign(s1, name, op, t, span_of(value, s.range), s.range))
        },
        StmtKind::PlaceAssign(p) => {
            let (target, s1) = infer_opt(st, p.target);
            let (value, s2) = infer_opt(s1, p.value);
            (
                Type::Unit,
                store_place(s2, p.target, p.op, target, value, span_of(p.value, s.range), s.range),
            )
        },
        StmtKind::Expr(e) => infer_or_unit(st, e),
        StmtKind::Other => (
            Type::Unit,
            report(
                st,
                s.range,
                DiagCode::NestedFunction,
                "functions and types are declared at the top level"@,
            ),
        ),
    }
}

/// A binding. A closure that is never stored over may have many types.
pub open spec fn infer_var(
    st: Inf,
    name: Option<Ident>,
    annotation: Option<TypeExpr>,
    init: Option<Box<Expr>>,
    range: Span,
) -> Inf
    decreases init, 1nat,
{
    let (got, s1) = infer_opt(st, init);
    let (t, s2) = match annotation {
        None => (got, s1),
        Some(a) => {
            let (want, s2) = type_of(s1, a);
            (want, expect(s2, want, got, span_of(init, range)))
        },
    };
    match name {
        None => s2,
        Some(n) => bind_var(s2, n, t, is_closure(init), range),
    }
}

pub open spec fn is_closure(e: Option<Box<Expr>>) -> bool {
    match e {
        Some(e) => e.kind is Closure,
        None => false,
    }
}

/// Whether one of the names is the given one.
pub open spec fn among(names: Seq<Seq<char>>, name: Seq<char>) -> bool {
    exists|i: int| 0 <= i < names.len() && names[i] == name
}

/// Brings a binding into scope. One at the top level is declared already.
pub open spec fn bind_var(st: Inf, name: Ident, t: Type, closure: bool, range: Span) -> Inf {
    let open = closure && !among(st.assigned, name.text@);
    match at(st.decls, name.range) {
        Some(id) => {
            let s1 = enter_top(st, name, id, t, range);
            if open {
                generalize(s1, id, t, range)
            } else {
                s1
            }
        },
        None => {
            let s1 = declare(st, name.text@, name.range, SymbolKind::Var, Some(monotype(t)));
            if open && st.names.len() < u32::MAX {
                generalize(s1, SymbolId(st.names.len() as u32), t, range)
            } else {
                s1
            }
        },
    }
}

/// Brings a declared binding into scope, at the type of its initializer.
pub open spec fn enter_top(st: Inf, name: Ident, id: SymbolId, t: Type, range: Span) -> Inf {
    let s1 = match declared_type(st, id) {
        Some(d) => expect(st, d, t, range),
        None => st,
    };
    let s2 = set_scheme(s1, id, monotype(t));
    Inf { env: s2.env.push((name.text@, id)), ..s2 }
}

/// A store to a name.
pub open spec fn assign(
    st: Inf,
    name: Option<Ident>,
    op: Option<AssignToken>,
    value: Type,
    at_value: Span,
    whole: Span,
) -> Inf {
    match name {
        None => st,
        Some(n) => match in_scope(st.env, n.text@) {
            None => unknown_name(st, n),
            Some(id) => {
                let (t, s1) = use_symbol(set_reassigned(st, id), id, n.range);
                store(
                    refer(s1, n.range, id, t),
                    store_op(op),
                    t,
                    value,
                    at_value,
                    whole,
                )
            },
        },
    }
}

pub open spec fn store_op(op: Option<AssignToken>) -> StoreOp {
    match op {
        None => StoreOp::Replace,
        Some(AssignToken::Eq) => StoreOp::Replace,
        Some(AssignToken::PlusEq) => StoreOp::Add,
        Some(AssignToken::PercentEq) => StoreOp::Remainder,
        _ => StoreOp::Combine,
    }
}

pub open spec fn place_op(op: PlaceAssignOp) -> StoreOp {
    match op {
        PlaceAssignOp::Store => StoreOp::Replace,
        PlaceAssignOp::Plus => StoreOp::Add,
        PlaceAssignOp::Rem => StoreOp::Remainder,
        _ => StoreOp::Combine,
    }
}

/// What a left side stores to.
#[derive(Clone, Copy, Debug, PartialEq, Eq, Structural)]
pub enum PlaceKind {
    Field,
    Subscript,
    NotAPlace,
}

pub open spec fn place_kind(e: Option<Box<Expr>>) -> PlaceKind {
    match e {
        None => PlaceKind::Field,
        Some(e) => match e.kind {
            ExprKind::FieldGet { .. } => PlaceKind::Field,
            ExprKind::Index { .. } => PlaceKind::Subscript,
            _ => PlaceKind::NotAPlace,
        },
    }
}

/// The type of what a subscript reads from, as recorded.
pub open spec fn subscripted(st: Inf, e: Option<Box<Expr>>) -> Option<Type> {
    match e {
        None => None,
        Some(e) => match e.kind {
            ExprKind::Index { receiver, .. } => match receiver {
                Some(r) => at(st.expr_types, r.spec_key()),
                None => None,
            },
            _ => None,
        },
    }
}

pub open spec fn index_count(e: Option<Box<Expr>>) -> nat {
    match e {
        Some(e) => match e.kind {
            ExprKind::Index { indices, .. } => indices@.len(),
            _ => 0,
        },
        None => 0,
    }
}

/// The recorded types of the indices of a subscript.
pub open spec fn index_types(st: Inf, es: Seq<Expr>) -> Seq<Type> {
    es.map_values(
        |e: Expr|
            match at(st.expr_types, e.spec_key()) {
                Some(t) => t,
                None => Type::Unit,
            },
    )
}

/// What a store through a subscript hands to its row: the indices and the value.
pub open spec fn store_args(st: Inf, place: Option<Box<Expr>>, value: Type) -> Seq<Type> {
    match place {
        Some(e) => match e.kind {
            ExprKind::Index { indices, .. } => index_types(st, indices@).push(value),
            _ => seq![value],
        },
        None => seq![value],
    }
}

/// The row of a store through a subscript. An update is a row of its own: only
/// the row knows what it does where there is no old value.
pub open spec fn store_row(op: PlaceAssignOp) -> Seq<char> {
    match op {
        PlaceAssignOp::Min => "[]min="@,
        PlaceAssignOp::Max => "[]max="@,
        _ => "[]="@,
    }
}

pub open spec fn is_update(op: PlaceAssignOp) -> bool {
    op == PlaceAssignOp::Min || op == PlaceAssignOp::Max
}

/// A store through a subscript, asked of what is subscripted.
pub open spec fn store_question(
    st: Inf,
    place: Option<Box<Expr>>,
    op: PlaceAssignOp,
    t: Type,
    value: Type,
    whole: Span,
) -> DeferredView {
    DeferredView {
        asked: Asked::Store,
        name: store_row(op),
        at: span_of(place, whole),
        receiver: t,
        args: TypeList::of(store_args(st, place, value)),
        result: Type::Unit,
    }
}

/// Decides a store through a subscript of a `t`, or keeps it for later. Texts
/// are read through a subscript and never stored to.
pub open spec fn store_through(
    st: Inf,
    place: Option<Box<Expr>>,
    op: PlaceAssignOp,
    t: Type,
    value: Type,
    whole: Span,
) -> Inf {
    match t {
        Type::Var(_) => Inf {
            deferred: st.deferred.push(store_question(st, place, op, t, value, whole)),
            ..st
        },
        Type::Never => st,
        _ => if is_update(op) {
            answer_store(st, store_question(st, place, op, t, value, whole), t)
        } else if t == text_type() {
            refuse(st, Capability::Indexable, text_type(), whole)
        } else if index_count(place) == usize::MAX {
            st
        } else {
            note_subscript(
                st,
                span_of(place, whole),
                "[]="@,
                index_count(place) + 1,
                t,
                Type::Unit,
            )
        },
    }
}

/// A store to a place. An update is of an entry that may be absent, which a
/// field never is.
pub open spec fn store_place(
    st: Inf,
    place: Option<Box<Expr>>,
    op: PlaceAssignOp,
    target: Type,
    value: Type,
    at_value: Span,
    whole: Span,
) -> Inf {
    let s1 = match place_kind(place) {
        PlaceKind::Field => if is_update(op) {
            undefined(st, st.db.resolve(target), whole)
        } else {
            st
        },
        PlaceKind::Subscript => match subscripted(st, place) {
            Some(t) => store_through(st, place, op, st.db.resolve(t), value, whole),
            None => st,
        },
        PlaceKind::NotAPlace => report(
            st,
            span_of(place, whole),
            DiagCode::NotAnAssignmentTarget,
            "nothing is stored here"@,
        ),
    };
    if is_update(op) {
        s1
    } else {
        store(s1, place_op(op), target, value, at_value, whole)
    }
}

// ---------------------------------------------------------------------------
// Files
// ---------------------------------------------------------------------------

pub open spec fn declared_twice(st: Inf, name: Ident) -> Inf {
    report(
        st,
        name.range,
        DiagCode::DuplicateDeclaration,
        "`"@ + name.text@ + "` is declared twice"@,
    )
}

/// Reports a type name that is taken.
pub open spec fn check_type_name(st: Inf, name: Ident) -> Inf {
    if type_named(st.types, name.text@) is Some {
        declared_twice(st, name)
    } else {
        st
    }
}

/// Declares the name of a type, which is not the name of a value.
pub open spec fn declare_type_name(st: Inf, name: Ident, kind: SymbolKind, ty: Type) -> Inf {
    Inf { env: st.env, ..declare(st, name.text@, name.range, kind, Some(monotype(ty))) }
}

/// Gives a struct's name a definition, still without fields.
pub open spec fn declare_struct(st: Inf, name: Ident) -> Inf {
    let s1 = check_type_name(st, name);
    if s1.db.records.len() < u32::MAX {
        let d = RecordDefId(s1.db.records.len() as u32);
        Inf {
            db: DbView {
                records: s1.db.records.push(
                    RecordView {
                        name: Some(name.text@),
                        params: Seq::empty(),
                        fields: Seq::empty(),
                    },
                ),
                ..s1.db
            },
            types: s1.types.push((name.text@, Type::Record(d, TypeList::Nil))),
            ..declare_type_name(s1, name, SymbolKind::Struct, Type::Record(d, TypeList::Nil))
        }
    } else {
        s1
    }
}

/// Gives an enum's name a definition, still without variants.
pub open spec fn declare_enum(st: Inf, name: Ident) -> Inf {
    let s1 = check_type_name(st, name);
    if s1.db.enums.len() < u32::MAX {
        let d = EnumDefId(s1.db.enums.len() as u32);
        Inf {
            db: DbView {
                enums: s1.db.enums.push(
                    EnumView { name: Some(name.text@), params: Seq::empty(), variants: Seq::empty() },
                ),
                ..s1.db
            },
            types: s1.types.push((name.text@, Type::Enum(d, TypeList::Nil))),
            ..declare_type_name(s1, name, SymbolKind::Enum, Type::Enum(d, TypeList::Nil))
        }
    } else {
        s1
    }
}

pub open spec fn declare_type(st: Inf, item: TopLevel) -> Inf {
    match item {
        TopLevel::Struct(s) => match s.name {
            Some(n) => declare_struct(st, n),
            None => st,
        },
        TopLevel::Enum(e) => match e.name {
            Some(n) => declare_enum(st, n),
            None => st,
        },
        _ => st,
    }
}

/// Every type of the file is known before any is looked into.
pub open spec fn declare_types(st: Inf, items: Seq<TopLevel>) -> Inf
    decreases items.len(),
{
    if items.len() == 0 {
        st
    } else {
        declare_type(declare_types(st, items.drop_last()), items.last())
    }
}

pub open spec fn field_view_names(fs: Seq<FieldView>) -> Seq<Seq<char>> {
    fs.map_values(|f: FieldView| f.name)
}

/// The fields of a struct; a name may stand once.
pub open spec fn struct_fields(st: Inf, fs: Seq<FieldDecl>) -> (Seq<FieldView>, Inf)
    decreases fs.len(),
{
    if fs.len() == 0 {
        (Seq::empty(), st)
    } else {
        let (before, s1) = struct_fields(st, fs.drop_last());
        let (ty, s2) = annotated(s1, fs.last().ty);
        match fs.last().name {
            None => (before, s2),
            Some(n) => if among(field_view_names(before), n.text@) {
                (
                    before,
                    report(
                        s2,
                        n.range,
                        DiagCode::DuplicateMember,
                        "field `"@ + n.text@ + "` is declared twice"@,
                    ),
                )
            } else {
                (before.push(FieldView { name: n.text@, ty }), s2)
            },
        }
    }
}

pub open spec fn variant_view_names(vs: Seq<VariantView>) -> Seq<Seq<char>> {
    vs.map_values(|v: VariantView| v.name)
}

/// The type of a variant's name: its enum, or a function to it.
pub open spec fn variant_type(payload: Seq<Type>, ty: Type) -> Type {
    if payload.len() == 0 {
        ty
    } else {
        Type::Func(TypeList::of(payload), Box::new(ty))
    }
}

/// The variants of an enum, each also a name; a name may stand once.
pub open spec fn enum_variants(st: Inf, vs: Seq<VariantDecl>, ty: Type) -> (Seq<VariantView>, Inf)
    decreases vs.len(),
{
    if vs.len() == 0 {
        (Seq::empty(), st)
    } else {
        let (before, s1) = enum_variants(st, vs.drop_last(), ty);
        let (payload, s2) = types_of(s1, vs.last().payload@);
        match vs.last().name {
            None => (before, s2),
            Some(n) => if among(variant_view_names(before), n.text@) {
                (
                    before,
                    report(
                        s2,
                        n.range,
                        DiagCode::DuplicateMember,
                        "variant `"@ + n.text@ + "` is declared twice"@,
                    ),
                )
            } else {
                (
                    before.push(VariantView { name: n.text@, payload: TypeList::of(payload) }),
                    declare(
                        s2,
                        n.text@,
                        n.range,
                        SymbolKind::EnumVariant,
                        Some(monotype(variant_type(payload, ty))),
                    ),
                )
            },
        }
    }
}

pub open spec fn set_fields(st: Inf, ty: Type, fields: Seq<FieldView>) -> Inf {
    match ty {
        Type::Record(d, _) => if d.0 < st.db.records.len() {
            Inf {
                db: DbView {
                    records: st.db.records.update(
                        d.0 as int,
                        RecordView { fields, ..st.db.records[d.0 as int] },
                    ),
                    ..st.db
                },
                ..st
            }
        } else {
            st
        },
        _ => st,
    }
}

pub open spec fn set_variants(st: Inf, ty: Type, variants: Seq<VariantView>) -> Inf {
    match ty {
        Type::Enum(d, _) => if d.0 < st.db.enums.len() {
            Inf {
                db: DbView {
                    enums: st.db.enums.update(
                        d.0 as int,
                        EnumView { variants, ..st.db.enums[d.0 as int] },
                    ),
                    ..st.db
                },
                ..st
            }
        } else {
            st
        },
        _ => st,
    }
}

/// Looks into a declared type.
pub open spec fn define_type(st: Inf, item: TopLevel) -> Inf {
    match item {
        TopLevel::Struct(s) => match s.name {
            Some(n) => match type_named(st.types, n.text@) {
                Some(ty) => {
                    let (fields, s1) = struct_fields(st, s.fields@);
                    set_fields(s1, ty, fields)
                },
                None => st,
            },
            None => st,
        },
        TopLevel::Enum(e) => match e.name {
            Some(n) => match type_named(st.types, n.text@) {
                Some(ty) => {
                    let (variants, s1) = enum_variants(st, e.variants@, ty);
                    set_variants(s1, ty, variants)
                },
                None => st,
            },
            None => st,
        },
        _ => st,
    }
}

pub open spec fn define_types(st: Inf, items: Seq<TopLevel>) -> Inf
    decreases items.len(),
{
    if items.len() == 0 {
        st
    } else {
        define_type(define_types(st, items.drop_last()), items.last())
    }
}

/// Whether a name is already that of a function.
pub open spec fn names_fn(st: Inf, name: Seq<char>) -> bool {
    match in_scope(st.env, name) {
        Some(id) => match lookup(st.names, id) {
            Some(s) => s.kind == SymbolKind::Fn,
            None => false,
        },
        None => false,
    }
}

pub open spec fn declare_fn(st: Inf, item: TopLevel) -> Inf {
    match item {
        TopLevel::Fn(f) => match f.name {
            Some(n) => {
                let s1 = if names_fn(st, n.text@) {
                    declared_twice(st, n)
                } else {
                    st
                };
                let (ps, s2) = param_types(s1, f.params@);
                let (r, s3) = annotated(s2, f.result);
                declare(
                    s3,
                    n.text@,
                    n.range,
                    SymbolKind::Fn,
                    Some(monotype(Type::Func(TypeList::of(ps), Box::new(r)))),
                )
            },
            None => st,
        },
        _ => st,
    }
}

/// Every function of the file is in scope throughout it.
pub open spec fn declare_fns(st: Inf, items: Seq<TopLevel>) -> Inf
    decreases items.len(),
{
    if items.len() == 0 {
        st
    } else {
        declare_fn(declare_fns(st, items.drop_last()), items.last())
    }
}

/// Declares a binding of the top level, without bringing it into scope.
pub open spec fn declare_top(st: Inf, name: Ident) -> Inf {
    let (t, s1) = fresh(st);
    if s1.names.len() < u32::MAX {
        let id = SymbolId(s1.names.len() as u32);
        Inf {
            env: s1.env,
            tops: s1.tops.push((name.text@, id)),
            ..declare(s1, name.text@, name.range, SymbolKind::Var, Some(monotype(t)))
        }
    } else {
        s1
    }
}

/// The name a top-level statement binds.
pub open spec fn top_name(item: TopLevel) -> Option<Ident> {
    match item {
        TopLevel::Stmt(s) => match s.kind {
            StmtKind::Var { name, .. } => name,
            _ => None,
        },
        _ => None,
    }
}

pub open spec fn declare_tops(st: Inf, items: Seq<TopLevel>) -> Inf
    decreases items.len(),
{
    if items.len() == 0 {
        st
    } else {
        let s1 = declare_tops(st, items.drop_last());
        match top_name(items.last()) {
            Some(n) => declare_top(s1, n),
            None => s1,
        }
    }
}

/// How many bindings the statements among some items make.
pub open spec fn count_tops(items: Seq<TopLevel>) -> nat
    decreases items.len(),
{
    if items.len() == 0 {
        0
    } else {
        count_tops(items.drop_last()) + if top_name(items.last()) is Some {
            1nat
        } else {
            0nat
        }
    }
}

/// The first `n` of the top-level bindings.
pub open spec fn first_tops(st: Inf, n: nat) -> Seq<(Seq<char>, SymbolId)> {
    if n < st.tops.len() {
        st.tops.take(n as int)
    } else {
        st.tops
    }
}

/// The type a symbol was declared with.
pub open spec fn declared_type(st: Inf, id: SymbolId) -> Option<Type> {
    match lookup(st.names, id) {
        Some(s) => match s.scheme {
            Some(scheme) => Some(scheme.body),
            None => None,
        },
        None => None,
    }
}

/// A function's body against its declared type. Afterwards each use of the
/// function may choose what the body left open.
pub open spec fn infer_fn(st: Inf, f: FnItem, id: SymbolId) -> Inf {
    match declared_type(st, id) {
        Some(ty) => match ty {
            Type::Func(ps, r) => {
                let s1 = bind_params(enter_fn(st, *r), f.params@, ps.seq());
                let (t, s2) = infer_opt_block(s1, f.body);
                let s3 = expect(s2, *r, t, block_span(f.body, f.range));
                generalize(leave_fn(s3, st), id, ty, f.range)
            },
            _ => infer_loose(st, f),
        },
        None => infer_loose(st, f),
    }
}

/// The body of a function that nothing can call, against the types written on it.
pub open spec fn infer_loose(st: Inf, f: FnItem) -> Inf {
    let (ts, s1) = param_types(st, f.params@);
    let (r, s2) = annotated(s1, f.result);
    let s3 = bind_params(enter_fn(s2, r), f.params@, ts);
    let (t, s4) = infer_opt_block(s3, f.body);
    leave_fn(expect(s4, r, t, block_span(f.body, f.range)), s2)
}

/// The symbol a function was declared as.
pub open spec fn fn_symbol(st: Inf, f: FnItem) -> Option<SymbolId> {
    match f.name {
        Some(name) => at(st.decls, name.range),
        None => None,
    }
}

/// A function, which sees the `n` bindings made before it.
#[verifier::opaque]
pub open spec fn infer_fn_item(st: Inf, item: TopLevel, n: nat) -> Inf {
    match item {
        TopLevel::Fn(f) => {
            let s1 = Inf { env: st.env + first_tops(st, n), ..st };
            let s2 = match fn_symbol(st, f) {
                Some(id) => infer_fn(Inf { inside: Some((id, f.range)), ..s1 }, f, id),
                None => infer_loose(s1, f),
            };
            leave(Inf { inside: None, ..s2 }, st.env.len(), st.scope)
        },
        _ => st,
    }
}

pub open spec fn infer_fns(st: Inf, items: Seq<TopLevel>) -> Inf
    decreases items.len(),
{
    if items.len() == 0 {
        st
    } else {
        infer_fn_item(
            infer_fns(st, items.drop_last()),
            items.last(),
            count_tops(items.drop_last()),
        )
    }
}

/// The statements at the top level, in order.
pub open spec fn infer_top(st: Inf, items: Seq<TopLevel>) -> Inf
    decreases items.len(),
{
    if items.len() == 0 {
        st
    } else {
        let s1 = infer_top(st, items.drop_last());
        match items.last() {
            TopLevel::Stmt(s) => infer_stmt(s1, s).1,
            _ => s1,
        }
    }
}

/// A whole file: its types, its bindings, its functions' names, its functions,
/// and then what it runs.
pub open spec fn infer_file(st: Inf, items: Seq<TopLevel>) -> Inf {
    let s1 = declare_types(st, items);
    let s2 = check_all_cycles(define_types(s1, items), items);
    let s3 = declare_tops(s2, items);
    let s4 = declare_fns(s3, items);
    let s5 = infer_fns(s4, items);
    let s6 = infer_top(s5, items);
    let s7 = resettle_times(s6, s6.deferred.len() + 1);
    report_outer(s7, s7.outer_uses)
}

// ---------------------------------------------------------------------------
// Laws
// ---------------------------------------------------------------------------

/// A declaration hides an earlier one of the same name, and no other.
pub proof fn law_inner_names_hide_outer_ones(
    env: Seq<(Seq<char>, SymbolId)>,
    name: Seq<char>,
    id: SymbolId,
    other: Seq<char>,
)
    ensures
        in_scope(env.push((name, id)), name) == Some(id),
        other != name ==> in_scope(env.push((name, id)), other) == in_scope(env, other),
{
    assert(env.push((name, id)).drop_last() =~= env);
}

/// Leaving a scope gives back the names that were in scope when it opened,
/// whatever was declared in it.
pub proof fn law_leaving_a_scope_restores_its_names(st: Inf, outer: Seq<(Seq<char>, SymbolId)>, inner:
    Seq<(Seq<char>, SymbolId)>, scope: ScopeId)
    requires
        st.env == outer + inner,
    ensures
        leave(st, outer.len(), scope).env == outer,
        leave(st, outer.len(), scope).scope == scope,
        leave(st, outer.len(), scope).names == st.names,
        leave(st, outer.len(), scope).diags == st.diags,
{
    assert((outer + inner).take(outer.len() as int) =~= outer);
}

/// What never returns agrees with every type, and changes nothing.
pub proof fn law_never_agrees_with_everything(st: Inf, want: Type, span: Span, t: Type)
    ensures
        expect(st, want, Type::Never, span) == st,
        join(st, Type::Never, t, span) == (t, st),
        join(st, t, Type::Never, span).1 == st,
{
}

/// Types that are made to agree are the same from then on; a report means that
/// nothing could have made them agree.
pub proof fn law_types_made_to_agree_are_equal(
    st: Inf,
    want: Type,
    got: Type,
    span: Span,
    c: crate::unify::Choice,
)
    requires
        well_formed(st.db.solution),
        known(st.db.solution, want),
        known(st.db.solution, got),
        !(st.db.resolve(got) is Never),
    ensures
        ({
            let out = expect(st, want, got, span);
            if out.diags == st.diags {
                out.db.resolve(want) == out.db.resolve(got) && well_formed(out.db.solution)
            } else {
                !(respects(c, st.db.solution) && inst(c, want) == inst(c, got))
            }
        }),
{
    crate::unify::law_unify_most_general(st.db.solution, want, got, c);
    match unify_spec(st.db.solution, want, got) {
        Some(_) => crate::unify::law_unified_types_are_equal(st.db.solution, want, got),
        None => {
            assert(expect(st, want, got, span).diags.len() == st.diags.len() + 1);
        },
    }
}

/// Types that agree already are accepted in silence.
pub proof fn law_equal_types_agree(st: Inf, t: Type, span: Span)
    ensures
        expect(st, t, t, span).diags == st.diags,
{
    crate::unify::lemma_unify_same(st.db.solution, t);
}

/// A symbol with one type has that type at every use.
pub proof fn law_a_use_of_one_type_is_that_type(st: Inf, t: Type, span: Span)
    ensures
        use_scheme(st, monotype(t), span) == (t, st),
{
    let s = monotype(t);
    assert(chosen_needs(s.needs, s.binders, Seq::empty(), span) =~= Seq::empty());
    assert(st.needs + Seq::<Pending>::empty() =~= st.needs);
    lemma_nothing_to_fill(t);
}

proof fn lemma_nothing_to_fill(t: Type)
    ensures
        fill_params(t, Seq::empty(), Seq::empty()) == t,
    decreases t,
{
    match t {
        Type::Collection(_, a) => lemma_nothing_to_fill_list(a),
        Type::Func(p, r) => {
            lemma_nothing_to_fill_list(p);
            lemma_nothing_to_fill(*r);
        },
        Type::Tuple(a) => lemma_nothing_to_fill_list(a),
        Type::Enum(_, a) => lemma_nothing_to_fill_list(a),
        Type::Record(_, a) => lemma_nothing_to_fill_list(a),
        _ => {},
    }
}

proof fn lemma_nothing_to_fill_list(l: TypeList)
    ensures
        fill_params_list(l, Seq::empty(), Seq::empty()) == l,
    decreases l,
{
    match l {
        TypeList::Nil => {},
        TypeList::Cons(h, t) => {
            lemma_nothing_to_fill(*h);
            lemma_nothing_to_fill_list(*t);
        },
    }
}

/// What a scheme lets its uses choose, nothing declared elsewhere mentions and
/// nothing that waits asks about.
pub proof fn law_binders_are_free(
    db: DbView,
    names: Seq<SymbolView>,
    ds: Seq<DeferredView>,
    inside: Span,
    vars: Seq<u32>,
    v: u32,
)
    ensures
        free_to_choose(db, names, ds, inside, vars).contains(v) ==> vars.contains(v)
            && !mentioned_any(db, names, inside, v) && !asked_about(db, ds, v),
    decreases vars.len(),
{
    if vars.len() > 0 {
        law_binders_are_free(db, names, ds, inside, vars.drop_last(), v);
        let before = free_to_choose(db, names, ds, inside, vars.drop_last());
        let all = free_to_choose(db, names, ds, inside, vars);
        if all.contains(v) {
            let k = choose|k: int| 0 <= k < all.len() && all[k] == v;
            if k < before.len() {
                assert(before[k] == v);
                let j = choose|j: int| 0 <= j < vars.len() - 1 && vars.drop_last()[j] == v;
                assert(vars[j] == v);
            } else {
                assert(vars.last() == v);
                assert(vars[vars.len() - 1] == v);
            }
        }
    }
}

/// Every use of a binding around a function is reported, once and in order, and
/// nothing else changes.
pub proof fn law_each_outer_use_is_reported(st: Inf, us: Seq<OuterUse>)
    ensures
        report_outer(st, us) == (Inf {
            diags: st.diags + us.map_values(|u: OuterUse| outer_report(st, u)),
            ..st
        }),
    decreases us.len(),
{
    let all = us.map_values(|u: OuterUse| outer_report(st, u));
    if us.len() > 0 {
        let front = us.drop_last();
        law_each_outer_use_is_reported(st, front);
        let s1 = report_outer(st, front);
        assert(outer_report(s1, us.last()) == outer_report(st, us.last()));
        assert(s1.diags.push(outer_report(st, us.last())) =~= st.diags + all);
    } else {
        assert(st.diags + all =~= st.diags);
    }
}

/// An update through a subscript is not carried out by the row of any other
/// store.
pub proof fn law_each_update_has_its_row(a: PlaceAssignOp, b: PlaceAssignOp)
    requires
        is_update(a),
        store_row(a) == store_row(b),
    ensures
        a == b,
{
    reveal_strlit("[]=");
    reveal_strlit("[]min=");
    reveal_strlit("[]max=");
    assert("[]min="@.len() == 6 && "[]max="@.len() == 6 && "[]="@.len() == 3);
    assert("[]min="@[3] == 'i');
    assert("[]max="@[3] == 'a');
    assert("[]min="@ != "[]max="@);
    assert("[]min="@ != "[]="@);
    assert("[]max="@ != "[]="@);
}

} // verus!
