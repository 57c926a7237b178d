//! Name resolution and type inference.
use vstd::prelude::*;

use crate::analysis::{row_views, CallSite, MethodEntry, MethodRef, MethodRow, MethodRowView};
use crate::ast::{
    BinToken, Expr, FieldInit, FieldPattern, Ident, LitToken, Pattern, PatternKind, TypeExpr,
    TypeExprKind, UnaryToken,
};
use crate::capture::ResolvedRef;
use crate::infer_spec;
use crate::infer_spec::{Answer, Asked, DeferredView, Inf, LoopFrame, OuterUse, Pending, StoreOp};
use crate::name_table::{lookup, NameTable};
use crate::parser_ast::is;
use crate::parser_copy::index_views;
use crate::parser_index::ParserIndex;
use crate::pattern::shown;
use crate::recursion::{find_recursion, Recursion};
use crate::scope::{ScopeId, ScopeTree};
use crate::source::{
    decimal, diag_views, push_diag, text, text2, text3, text5, DiagCode, Diagnostic, FileId, FileSpan, Span,
};
use crate::symbol::{Symbol, SymbolId, SymbolKind, SymbolView};
use crate::tables::{at, NodeMap, SpanMap};
use crate::typedb::{collect_vars, var_position, Capability, FieldDef, Need, Scheme, TypeDb};
use crate::types::{CollectionCtor, ScalarType, Type, TypeList};

verus! {

/// Names in scope, as their texts.
pub open spec fn env_view(env: Seq<(String, SymbolId)>) -> Seq<(Seq<char>, SymbolId)> {
    env.map_values(|e: (String, SymbolId)| (e.0@, e.1))
}

/// Named types, by their texts.
pub open spec fn types_view(types: Seq<(String, Type)>) -> Seq<(Seq<char>, Type)> {
    types.map_values(|e: (String, Type)| (e.0@, e.1))
}

pub open spec fn texts(names: Seq<String>) -> Seq<Seq<char>> {
    names.map_values(|s: String| s@)
}

/// Something asked of a value while nothing is known of its type.
#[derive(Debug)]
pub struct Deferred {
    pub asked: Asked,
    pub name: String,
    pub at: Span,
    pub receiver: Type,
    pub args: TypeList,
    pub result: Type,
}

impl View for Deferred {
    type V = DeferredView;

    open spec fn view(&self) -> DeferredView {
        DeferredView {
            asked: self.asked,
            name: self.name@,
            at: self.at,
            receiver: self.receiver,
            args: self.args,
            result: self.result,
        }
    }
}

impl Deferred {
    pub fn dup(&self) -> (r: Deferred)
        ensures
            r@ == self@,
    {
        Deferred {
            asked: self.asked,
            name: text(&self.name),
            at: self.at,
            receiver: self.receiver.dup(),
            args: self.args.dup(),
            result: self.result.dup(),
        }
    }
}

pub open spec fn deferred_views(s: Seq<Deferred>) -> Seq<DeferredView> {
    s.map_values(|d: Deferred| d@)
}

/// A file under inference.
pub struct Inferer {
    pub file: FileId,
    pub db: TypeDb,
    pub names: NameTable,
    pub env: Vec<(String, SymbolId)>,
    pub types: Vec<(String, Type)>,
    pub methods: Vec<MethodRow>,
    pub assigned: Vec<String>,
    pub refs: SpanMap<ResolvedRef>,
    pub ref_types: SpanMap<Type>,
    pub decls: SpanMap<SymbolId>,
    pub call_sites: SpanMap<CallSite>,
    pub expr_types: NodeMap<Type>,
    pub method_refs: SpanMap<MethodRef>,
    pub diags: Vec<Diagnostic>,
    pub needs: Vec<Pending>,
    pub deferred: Vec<Deferred>,
    pub tops: Vec<(String, SymbolId)>,
    pub inside: Option<(SymbolId, Span)>,
    pub calls: Vec<(SymbolId, SymbolId)>,
    pub outer_uses: Vec<OuterUse>,
    pub scopes: ScopeTree,
    pub scope: ScopeId,
    pub parser_exprs: Vec<ParserIndex>,
    pub result: Option<Type>,
    pub breaks: Vec<LoopFrame>,
}

impl View for Inferer {
    type V = Inf;

    open spec fn view(&self) -> Inf {
        Inf {
            file: self.file,
            db: self.db@,
            names: self.names@,
            env: env_view(self.env@),
            types: types_view(self.types@),
            methods: row_views(self.methods@),
            assigned: texts(self.assigned@),
            refs: self.refs@,
            ref_types: self.ref_types@,
            decls: self.decls@,
            call_sites: self.call_sites@,
            expr_types: self.expr_types@,
            method_refs: self.method_refs@,
            diags: diag_views(self.diags@),
            needs: self.needs@,
            deferred: deferred_views(self.deferred@),
            tops: env_view(self.tops@),
            inside: self.inside,
            calls: self.calls@,
            outer_uses: self.outer_uses@,
            scopes: self.scopes@,
            scope: self.scope,
            parser_exprs: index_views(self.parser_exprs@),
            result: self.result,
            breaks: self.breaks@,
        }
    }
}

impl Pending {
    pub fn dup(&self) -> (r: Pending)
        ensures
            r == *self,
    {
        Pending { need: self.need.dup(), at: self.at }
    }
}

pub fn int_type() -> (r: Type)
    ensures
        r == infer_spec::int_type(),
{
    Type::Scalar(ScalarType::Int)
}

pub fn bool_type() -> (r: Type)
    ensures
        r == infer_spec::bool_type(),
{
    Type::Scalar(ScalarType::Bool)
}

pub fn float_type() -> (r: Type)
    ensures
        r == infer_spec::float_type(),
{
    Type::Scalar(ScalarType::Float)
}

pub fn text_type() -> (r: Type)
    ensures
        r == infer_spec::text_type(),
{
    Type::Scalar(ScalarType::Text)
}

pub fn both(a: Answer, b: Answer) -> (r: Answer)
    ensures
        r == infer_spec::both(a, b),
{
    if a == Answer::No || b == Answer::No {
        Answer::No
    } else if a == Answer::Later || b == Answer::Later {
        Answer::Later
    } else {
        Answer::Yes
    }
}

/// Whether values of type `t` can be compared for equality, or as keys.
pub fn comparable(db: &TypeDb, keys: bool, depth: usize, t: &Type) -> (r: Answer)
    ensures
        r == infer_spec::comparable(db@, keys, depth as nat, *t),
    decreases 2 * depth, t, 0nat,
{
    match t {
        Type::Func(_, _) => Answer::No,
        Type::Var(_) => Answer::Later,
        Type::Collection(c, a) => {
            if *c == CollectionCtor::Range {
                Answer::Yes
            } else if keys {
                Answer::No
            } else {
                all_comparable(db, keys, depth, a)
            }
        },
        Type::Tuple(a) => all_comparable(db, keys, depth, a),
        Type::Enum(_, a) => all_comparable(db, keys, depth, a),
        Type::Record(d, a) => {
            let args = all_comparable(db, keys, depth, a);
            if (d.0 as usize) < db.records.len() && depth > 0 {
                let def = &db.records[d.0 as usize];
                assert(db@.records[d.0 as int] == def@);
                both(args, fields_comparable(db, keys, depth - 1, &def.fields))
            } else {
                both(args, Answer::Yes)
            }
        },
        _ => Answer::Yes,
    }
}

fn all_comparable(db: &TypeDb, keys: bool, depth: usize, l: &TypeList) -> (r: Answer)
    ensures
        r == infer_spec::all_comparable(db@, keys, depth as nat, *l),
    decreases 2 * depth, l, 0nat,
{
    match l {
        TypeList::Nil => Answer::Yes,
        TypeList::Cons(h, t) => {
            let first = comparable(db, keys, depth, h);
            both(first, all_comparable(db, keys, depth, t))
        },
    }
}

fn fields_comparable(db: &TypeDb, keys: bool, depth: usize, fields: &Vec<FieldDef>) -> (r: Answer)
    ensures
        r == infer_spec::fields_comparable(
            db@,
            keys,
            depth as nat,
            fields@.map_values(|f: FieldDef| f@),
        ),
    decreases 2 * depth + 1, fields, 0nat,
{
    let ghost fs = fields@.map_values(|f: FieldDef| f@);
    let mut r = Answer::Yes;
    let mut i: usize = 0;
    while i < fields.len()
        invariant
            i <= fields@.len(),
            fs == fields@.map_values(|f: FieldDef| f@),
            r == infer_spec::fields_comparable(db@, keys, depth as nat, fs.take(i as int)),
        decreases fields@.len() - i,
    {
        let one = comparable(db, keys, depth, &fields[i].ty);
        r = both(r, one);
        assert(fs.take(i + 1).drop_last() =~= fs.take(i as int));
        assert(fs.take(i + 1).last() == fields@[i as int]@);
        i += 1;
    }
    assert(fs.take(i as int) =~= fs);
    r
}

pub fn orderable(t: &Type) -> (r: Answer)
    ensures
        r == infer_spec::orderable(*t),
{
    match t {
        Type::Scalar(ScalarType::Bool) => Answer::No,
        Type::Scalar(_) => Answer::Yes,
        Type::Never => Answer::Yes,
        Type::Var(_) => Answer::Later,
        _ => Answer::No,
    }
}

pub fn numeric(t: &Type) -> (r: Answer)
    ensures
        r == infer_spec::numeric(*t),
{
    match t {
        Type::Scalar(ScalarType::Int) => Answer::Yes,
        Type::Scalar(ScalarType::Float) => Answer::Yes,
        Type::Never => Answer::Yes,
        Type::Var(_) => Answer::Later,
        _ => Answer::No,
    }
}

/// What iterating a value of type `t` yields.
pub fn item_of(t: &Type) -> (r: Option<Type>)
    ensures
        r == infer_spec::item_of(*t),
{
    match t {
        Type::Scalar(ScalarType::Text) => Some(Type::Scalar(ScalarType::Char)),
        Type::Collection(c, a) => match c {
            CollectionCtor::Range => Some(int_type()),
            CollectionCtor::BitSet => Some(int_type()),
            CollectionCtor::Grid => None,
            CollectionCtor::MapOf => Some(Type::Tuple(a.dup())),
            CollectionCtor::Counter => match a {
                TypeList::Cons(h, _) => Some(
                    Type::Tuple(
                        TypeList::Cons(
                            Box::new(h.dup()),
                            Box::new(TypeList::Cons(Box::new(int_type()), Box::new(TypeList::Nil))),
                        ),
                    ),
                ),
                TypeList::Nil => None,
            },
            _ => match a {
                TypeList::Cons(h, _) => Some(h.dup()),
                TypeList::Nil => None,
            },
        },
        _ => None,
    }
}

pub fn supports(db: &TypeDb, what: Capability, t: &Type) -> (r: Answer)
    ensures
        r == infer_spec::supports(db@, what, *t),
{
    match what {
        Capability::Equatable => comparable(db, false, db.records.len(), t),
        Capability::Hashable => comparable(db, true, db.records.len(), t),
        Capability::Orderable => orderable(t),
        Capability::Numeric => numeric(t),
        Capability::Iterable => match t {
            Type::Var(_) => Answer::Later,
            Type::Never => Answer::Yes,
            _ => if item_of(t).is_some() {
                Answer::Yes
            } else {
                Answer::No
            },
        },
        _ => Answer::Yes,
    }
}

pub fn need_code(what: Capability) -> (r: DiagCode)
    ensures
        r == infer_spec::need_code(what),
{
    match what {
        Capability::Equatable => DiagCode::NotEquatable,
        Capability::Orderable => DiagCode::NotOrderable,
        Capability::Numeric => DiagCode::NotNumeric,
        Capability::Iterable => DiagCode::NotIterable,
        Capability::Hashable => DiagCode::NotHashable,
        Capability::Indexable => DiagCode::NotIndexable,
    }
}

pub fn need_word(what: Capability) -> (r: &'static str)
    ensures
        r@ == infer_spec::need_word(what),
{
    match what {
        Capability::Equatable => "cannot be compared for equality",
        Capability::Orderable => "has no order",
        Capability::Numeric => "is not a number",
        Capability::Iterable => "cannot be iterated",
        Capability::Hashable => "cannot be a key",
        Capability::Indexable => "cannot be indexed",
    }
}

/// The requirements of a scheme, at the types a use chooses.
fn chosen_needs(needs: &Vec<Need>, binders: &Vec<u32>, args: &Vec<Type>, span: Span) -> (r: Vec<Pending>)
    ensures
        r@ == infer_spec::chosen_needs(needs@, binders@, args@, span),
{
    let ghost chosen = infer_spec::chosen_needs(needs@, binders@, args@, span);
    let mut out: Vec<Pending> = Vec::new();
    let mut i: usize = 0;
    while i < needs.len()
        invariant
            i <= needs@.len(),
            out@.len() == i,
            chosen == infer_spec::chosen_needs(needs@, binders@, args@, span),
            forall|j: int| 0 <= j < i ==> (#[trigger] out@[j]) == chosen[j],
        decreases needs@.len() - i,
    {
        let n = &needs[i];
        out.push(
            Pending {
                need: Need {
                    what: n.what,
                    ty: n.ty.filled(binders, args),
                    other: n.other.filled(binders, args),
                    from: n.from,
                },
                at: span,
            },
        );
        i += 1;
    }
    assert(out@ =~= chosen);
    out
}

fn arose_at(p: &Pending) -> (r: Span)
    ensures
        r == infer_spec::arose_at(*p),
{
    match p.need.from {
        Some(s) => s,
        None => p.at,
    }
}

fn asks_about(db: &TypeDb, d: &Deferred, v: u32) -> (r: bool)
    ensures
        r == infer_spec::asks_about(db@, d@, v),
{
    db.deep_resolve(&d.receiver).has_var(v) || d.args.resolved(&db.solution).has_var(v)
        || db.deep_resolve(&d.result).has_var(v)
}

proof fn lemma_asked_prefix(db: crate::typedb::DbView, ds: Seq<DeferredView>, v: u32, n: int)
    requires
        0 <= n <= ds.len(),
        infer_spec::asked_about(db, ds.take(n), v),
    ensures
        infer_spec::asked_about(db, ds, v),
    decreases ds.len(),
{
    if n == ds.len() {
        assert(ds.take(n) =~= ds);
    } else {
        assert(ds.drop_last().take(n) =~= ds.take(n));
        lemma_asked_prefix(db, ds.drop_last(), v, n);
    }
}

fn asked_about(db: &TypeDb, ds: &Vec<Deferred>, v: u32) -> (r: bool)
    ensures
        r == infer_spec::asked_about(db@, deferred_views(ds@), v),
{
    let ghost all = deferred_views(ds@);
    let mut i: usize = 0;
    while i < ds.len()
        invariant
            i <= ds@.len(),
            all == deferred_views(ds@),
            !infer_spec::asked_about(db@, all.take(i as int), v),
        decreases ds@.len() - i,
    {
        assert(all.take(i + 1).drop_last() =~= all.take(i as int));
        assert(all.take(i + 1).last() == ds@[i as int]@);
        if asks_about(db, &ds[i], v) {
            proof {
                lemma_asked_prefix(db@, all, v, i + 1);
            }
            return true;
        }
        i += 1;
    }
    assert(all.take(i as int) =~= all);
    false
}

fn encloses(outer: Span, inner: Span) -> (r: bool)
    ensures
        r == outer.encloses(inner),
{
    outer.start <= inner.start && inner.end <= outer.end
}

fn mentioned(db: &TypeDb, s: &Symbol, inside: Span, v: u32) -> (r: bool)
    ensures
        r == infer_spec::mentioned(db@, s@, inside, v),
{
    let outside = match &s.decl {
        Some(d) => !encloses(inside, d.span),
        None => true,
    };
    outside && match &s.scheme {
        Some(scheme) => var_position(&scheme.binders, v).is_none() && db.deep_resolve(
            &scheme.body,
        ).has_var(v),
        None => false,
    }
}

fn mentioned_any(db: &TypeDb, names: &NameTable, inside: Span, v: u32) -> (r: bool)
    ensures
        r == infer_spec::mentioned_any(db@, names@, inside, v),
{
    let all = names.all();
    let ghost vs = names@;
    let mut i: usize = 0;
    while i < all.len()
        invariant
            i <= all@.len(),
            vs == all@.map_values(|s: Symbol| s@),
            vs == names@,
            !infer_spec::mentioned_any(db@, vs.take(i as int), inside, v),
        decreases all@.len() - i,
    {
        assert(vs.take(i + 1).drop_last() =~= vs.take(i as int));
        assert(vs.take(i + 1).last() == all@[i as int]@);
        if mentioned(db, &all[i], inside, v) {
            proof {
                lemma_mentioned_prefix(db@, vs, inside, v, i + 1);
            }
            return true;
        }
        i += 1;
    }
    assert(vs.take(i as int) =~= vs);
    false
}

/// The declaration a name refers to: the latest among those given.
pub(crate) fn scope_lookup(env: &Vec<(String, SymbolId)>, name: &String) -> (r: Option<SymbolId>)
    ensures
        r == infer_spec::in_scope(env_view(env@), name@),
{
    let ghost all = env_view(env@);
    let mut i: usize = env.len();
    assert(all.take(i as int) =~= all);
    while i > 0
        invariant
            i <= env@.len(),
            all == env_view(env@),
            infer_spec::in_scope(all, name@) == infer_spec::in_scope(all.take(i as int), name@),
        decreases i,
    {
        assert(all.take(i as int).drop_last() =~= all.take(i - 1));
        assert(all.take(i as int).last() == all[i - 1]);
        i -= 1;
        if env[i].0 == *name {
            return Some(env[i].1);
        }
    }
    None
}

fn is_outer(s: &Symbol, body: Span) -> (r: bool)
    ensures
        r == infer_spec::is_outer(s@, body),
{
    s.kind.is_local() && match &s.decl {
        Some(d) => !encloses(body, d.span),
        None => false,
    }
}

fn no_closure_hint(f: &str, through: &str) -> (r: String)
    ensures
        r@ == infer_spec::no_closure_hint(f@, through@),
{
    text5(
        "`",
        f,
        "` calls itself",
        through,
        ", so a closure is not the way out: a closure cannot name itself (`N001`)",
    )
}

fn store_word(name: &String) -> (r: &'static str)
    ensures
        r@ == infer_spec::store_word(name@),
{
    if is(name, "[]min=") {
        "min="
    } else if is(name, "[]max=") {
        "max="
    } else {
        "="
    }
}

fn outer_message(f: &String, name: &String, recursive: bool) -> (r: String)
    ensures
        r@ == infer_spec::outer_message(f@, name@, recursive),
{
    let head = text5(
        "`",
        f,
        "` cannot use `",
        name,
        "`: a function does not capture the bindings around it (pass `",
    );
    text3(
        &head,
        name,
        if recursive {
            "` as a parameter)"
        } else {
            "` as a parameter, or use a closure)"
        },
    )
}

proof fn lemma_mentioned_prefix(
    db: crate::typedb::DbView,
    names: Seq<SymbolView>,
    inside: Span,
    v: u32,
    n: int,
)
    requires
        0 <= n <= names.len(),
        infer_spec::mentioned_any(db, names.take(n), inside, v),
    ensures
        infer_spec::mentioned_any(db, names, inside, v),
    decreases names.len(),
{
    if n == names.len() {
        assert(names.take(n) =~= names);
    } else {
        assert(names.drop_last().take(n) =~= names.take(n));
        lemma_mentioned_prefix(db, names.drop_last(), inside, v, n);
    }
}

impl Inferer {
    pub(crate) fn report(&mut self, span: Span, code: DiagCode, message: String)
        ensures
            final(self)@ == infer_spec::report(old(self)@, span, code, message@),
    {
        let d = Diagnostic::error(FileSpan::new(self.file, span), code, message);
        push_diag(&mut self.diags, d);
    }

    pub(crate) fn fresh(&mut self) -> (r: Type)
        ensures
            (r, final(self)@) == infer_spec::fresh(old(self)@),
    {
        self.db.fresh_var()
    }

    pub(crate) fn shown(&self, t: &Type) -> (r: String)
        ensures
            r@ == shown(self@.db, *t),
    {
        self.db.render(t)
    }

    pub(crate) fn mismatch(&mut self, want: &Type, got: &Type, span: Span)
        ensures
            final(self)@ == infer_spec::mismatch(old(self)@, *want, *got, span),
    {
        let found = self.db.deep_resolve(got);
        let w = self.shown(&self.db.deep_resolve(want));
        let g = self.shown(&found);
        let head = text3("expected ", &w, ", found ");
        let at = FileSpan::new(self.file, span);
        let d = Diagnostic::error(at, DiagCode::TypeMismatch, text2(&head, &g));
        let is_unit = match found {
            Type::Unit => true,
            _ => false,
        };
        if is_unit {
            let hint = text(
                "this is `Unit`: a block that ends in a statement, and a call made for its effect, have no other value",
            );
            push_diag(&mut self.diags, d.with_hint(at, hint));
        } else {
            push_diag(&mut self.diags, d);
        }
    }

    /// Makes `got` agree with `want`.
    pub fn expect(&mut self, want: &Type, got: &Type, span: Span)
        ensures
            final(self)@ == infer_spec::expect(old(self)@, *want, *got, span),
    {
        if let Type::Never = self.db.deep_resolve(got) {
            return;
        }
        if !self.db.unify(want, got) {
            self.mismatch(want, got, span);
        }
    }

    /// The type of either of two branches.
    pub(crate) fn join(&mut self, a: Type, b: Type, span: Span) -> (r: Type)
        ensures
            (r, final(self)@) == infer_spec::join(old(self)@, a, b, span),
    {
        if let Type::Never = self.db.deep_resolve(&a) {
            return b;
        }
        self.expect(&a, &b, span);
        a
    }

    pub(crate) fn in_scope(&self, name: &String) -> (r: Option<SymbolId>)
        ensures
            r == infer_spec::in_scope(self@.env, name@),
    {
        scope_lookup(&self.env, name)
    }

    pub(crate) fn declare(&mut self, name: &String, range: Span, kind: SymbolKind, scheme: Option<Scheme>)
        ensures
            final(self)@ == infer_spec::declare(
                old(self)@,
                name@,
                range,
                kind,
                crate::typedb::opt_scheme(scheme),
            ),
    {
        if self.names.len() < u32::MAX as usize {
            let id = self.names.insert(
                Symbol {
                    id: SymbolId(0),
                    name: text(name),
                    kind,
                    decl: Some(FileSpan::new(self.file, range)),
                    reassigned: false,
                    scheme,
                },
            );
            self.env.push((text(name), id));
            self.decls.insert(range, id);
            self.scopes.declare(self.scope, id);
            assert(self@.env =~= old(self)@.env.push((name@, id)));
            assert(self@.names =~= infer_spec::declare(
                old(self)@,
                name@,
                range,
                kind,
                crate::typedb::opt_scheme(scheme),
            ).names);
        }
    }

    pub(crate) fn declare_mono(&mut self, name: &Ident, kind: SymbolKind, ty: &Type)
        ensures
            final(self)@ == infer_spec::declare(
                old(self)@,
                name.text@,
                name.range,
                kind,
                Some(crate::typedb::monotype(*ty)),
            ),
    {
        self.declare(&name.text, name.range, kind, Some(Scheme::monotype(ty.dup())));
    }

    pub(crate) fn set_scheme(&mut self, id: SymbolId, scheme: Scheme)
        ensures
            final(self)@ == infer_spec::set_scheme(old(self)@, id, scheme@),
    {
        if let Some(s) = self.names.get_mut(id) {
            s.scheme = Some(scheme);
        }
    }

    pub(crate) fn set_reassigned(&mut self, id: SymbolId)
        ensures
            final(self)@ == infer_spec::set_reassigned(old(self)@, id),
    {
        if let Some(s) = self.names.get_mut(id) {
            s.reassigned = true;
        }
    }

    pub(crate) fn refer(&mut self, range: Span, symbol: SymbolId, ty: &Type)
        ensures
            final(self)@ == infer_spec::refer(old(self)@, range, symbol, *ty),
    {
        self.refs.insert(range, ResolvedRef { symbol, scope: self.scope });
        self.ref_types.insert(range, ty.dup());
        self.check_outer(range, symbol);
    }

    fn check_outer(&mut self, range: Span, symbol: SymbolId)
        ensures
            final(self)@ == infer_spec::check_outer(old(self)@, range, symbol),
    {
        let used: Option<OuterUse> = match (self.inside, self.names.get(symbol)) {
            (Some((f, body)), Some(s)) => if is_outer(s, body) {
                Some(OuterUse { at: range, function: f, used: symbol })
            } else {
                None
            },
            _ => None,
        };
        if let Some(u) = used {
            self.outer_uses.push(u);
        }
    }

    fn symbol_name(&self, id: SymbolId) -> (r: String)
        ensures
            r@ == infer_spec::symbol_name(self@.names, id),
    {
        match self.names.get(id) {
            Some(s) => text(&s.name),
            None => {
                let r = String::new();
                assert(r@ =~= Seq::empty());
                r
            },
        }
    }

    fn outer_report(&self, u: OuterUse) -> (r: Diagnostic)
        ensures
            r@ == infer_spec::outer_report(self@, u),
    {
        let f = self.symbol_name(u.function);
        let name = self.symbol_name(u.used);
        let at = FileSpan::new(self.file, u.at);
        let code = DiagCode::FunctionReadsOuterBinding;
        match find_recursion(&self.calls, u.function) {
            Recursion::Never => Diagnostic::error(at, code, outer_message(&f, &name, false)),
            Recursion::Directly => {
                let hint = no_closure_hint(&f, "");
                Diagnostic::error(at, code, outer_message(&f, &name, true)).with_hint(at, hint)
            },
            Recursion::Through(c) => {
                let other = self.symbol_name(c);
                let through = text3(" through `", &other, "`");
                let hint = no_closure_hint(&f, &through);
                Diagnostic::error(at, code, outer_message(&f, &name, true)).with_hint(at, hint)
            },
        }
    }

    /// Reports the uses of bindings around functions.
    pub(crate) fn report_outer(&mut self)
        ensures
            final(self)@ == infer_spec::report_outer(old(self)@, old(self)@.outer_uses),
    {
        let ghost s0 = self@;
        let ghost us = self@.outer_uses;
        let mut i: usize = 0;
        while i < self.outer_uses.len()
            invariant
                i <= us.len(),
                self@.outer_uses == us,
                self@ == infer_spec::report_outer(s0, us.take(i as int)),
            decreases us.len() - i,
        {
            assert(us.take(i + 1).drop_last() =~= us.take(i as int));
            assert(us.take(i + 1).last() == us[i as int]);
            let d = self.outer_report(self.outer_uses[i]);
            push_diag(&mut self.diags, d);
            i += 1;
        }
        assert(us.take(i as int) =~= us);
    }

    /// Opens a scope inside the one around the point reached.
    pub(crate) fn enter(&mut self)
        ensures
            final(self)@ == infer_spec::enter(old(self)@),
    {
        self.scope = self.scopes.open(self.scope);
    }

    pub(crate) fn unknown_name(&mut self, name: &Ident)
        ensures
            final(self)@ == infer_spec::unknown_name(old(self)@, *name),
    {
        if is(&name.text, "let") {
            let at = FileSpan::new(self.file, name.range);
            let d = Diagnostic::error(
                at,
                DiagCode::RetiredKeyword,
                text("a binding is written with `var`"),
            ).with_suggestion(at, text("var"), text("write `var`"));
            push_diag(&mut self.diags, d);
            return;
        }
        let message = text3("cannot find `", &name.text, "` in this scope");
        self.report(name.range, DiagCode::UnknownName, message);
    }

    pub(crate) fn refuse(&mut self, what: Capability, t: &Type, span: Span)
        ensures
            final(self)@ == infer_spec::refuse(old(self)@, what, *t, span),
    {
        let shown = self.shown(t);
        let head = text3("`", &shown, "` ");
        let message = text2(&head, need_word(what));
        self.report(span, need_code(what), message);
    }

    fn note_last(&mut self, n: usize, from: Option<Span>)
        ensures
            final(self)@ == infer_spec::note_last(old(self)@, n as nat, from),
    {
        let Some(span) = from else {
            return;
        };
        if self.diags.len() > n {
            let ghost before = self@.diags;
            if let Some(d) = self.diags.pop() {
                assert(self@.diags =~= before.drop_last());
                let noted = d.with_note(
                    FileSpan::new(self.file, span),
                    text("it is iterated here"),
                );
                push_diag(&mut self.diags, noted);
            }
        }
    }

    /// Settles one requirement, or keeps it for later.
    pub(crate) fn settle(&mut self, p: Pending)
        ensures
            final(self)@ == infer_spec::settle(old(self)@, p),
    {
        let t = self.db.deep_resolve(&p.need.ty);
        match supports(&self.db, p.need.what, &t) {
            Answer::Yes => {
                if p.need.what == Capability::Iterable {
                    if let Some(item) = item_of(&t) {
                        let n: usize = self.diags.len();
                        self.expect(&p.need.other, &item, p.at);
                        self.note_last(n, p.need.from);
                    }
                }
            },
            Answer::No => self.refuse(p.need.what, &t, p.at),
            Answer::Later => self.needs.push(p),
        }
    }

    /// Settles the requirements that have been waiting.
    pub(crate) fn settle_needs(&mut self)
        ensures
            final(self)@ == infer_spec::settle_needs(old(self)@),
    {
        let mut waiting: Vec<Pending> = Vec::new();
        core::mem::swap(&mut self.needs, &mut waiting);
        assert(self@.needs =~= Seq::empty());
        self.settle_all(&waiting);
    }

    pub(crate) fn settle_all(&mut self, waiting: &Vec<Pending>)
        ensures
            final(self)@ == infer_spec::settle_all(old(self)@, waiting@),
    {
        let ghost s0 = self@;
        let ghost ps = waiting@;
        let mut i: usize = 0;
        while i < waiting.len()
            invariant
                i <= waiting@.len(),
                waiting@ == ps,
                self@ == infer_spec::settle_all(s0, ps.take(i as int)),
            decreases waiting@.len() - i,
        {
            self.settle(waiting[i].dup());
            assert(ps.take(i + 1).drop_last() =~= ps.take(i as int));
            assert(ps.take(i + 1).last() == ps[i as int]);
            i += 1;
        }
        assert(ps.take(i as int) =~= ps);
    }

    pub(crate) fn require(&mut self, what: Capability, ty: &Type, other: &Type, span: Span)
        ensures
            final(self)@ == infer_spec::require(old(self)@, what, *ty, *other, span),
    {
        self.settle(Pending { need: Need { what, ty: ty.dup(), other: other.dup(), from: None }, at: span });
    }

    pub(crate) fn fresh_many(&mut self, n: usize) -> (r: Vec<Type>)
        ensures
            (r@, final(self)@) == infer_spec::fresh_many(old(self)@, n as nat),
            r@.len() == n,
    {
        let mut out: Vec<Type> = Vec::new();
        let mut i: usize = 0;
        assert(out@ =~= Seq::empty());
        while i < n
            invariant
                i <= n,
                out@.len() == i,
                (out@, self@) == infer_spec::fresh_many(old(self)@, i as nat),
            decreases n - i,
        {
            let t = self.fresh();
            out.push(t);
            i += 1;
        }
        out
    }

    /// A use of a scheme.
    pub(crate) fn use_scheme(&mut self, s: &Scheme, span: Span) -> (r: Type)
        ensures
            (r, final(self)@) == infer_spec::use_scheme(old(self)@, s@, span),
    {
        let args = self.fresh_many(s.binders.len());
        let mut chosen = chosen_needs(&s.needs, &s.binders, &args, span);
        let ghost added = chosen@;
        self.needs.append(&mut chosen);
        assert(self@.needs =~= infer_spec::fresh_many(old(self)@, s@.binders.len()).1.needs + added);
        s.body.filled(&s.binders, &args)
    }

    /// The type of a symbol at a use.
    pub(crate) fn use_symbol(&mut self, id: SymbolId, span: Span) -> (r: Type)
        ensures
            (r, final(self)@) == infer_spec::use_symbol(old(self)@, id, span),
    {
        let scheme: Option<Scheme> = match self.names.get(id) {
            Some(s) => match &s.scheme {
                Some(scheme) => Some(scheme.dup()),
                None => None,
            },
            None => None,
        };
        match scheme {
            Some(s) => self.use_scheme(&s, span),
            None => self.fresh(),
        }
    }

    pub(crate) fn free_to_choose(&self, inside: Span, vars: &Vec<u32>) -> (r: Vec<u32>)
        ensures
            r@ == infer_spec::free_to_choose(
                self@.db,
                self@.names,
                self@.deferred,
                inside,
                vars@,
            ),
    {
        let mut out: Vec<u32> = Vec::new();
        let mut i: usize = 0;
        assert(out@ =~= Seq::empty());
        while i < vars.len()
            invariant
                i <= vars@.len(),
                out@ == infer_spec::free_to_choose(
                    self@.db,
                    self@.names,
                    self@.deferred,
                    inside,
                    vars@.take(i as int),
                ),
            decreases vars@.len() - i,
        {
            assert(vars@.take(i + 1).drop_last() =~= vars@.take(i as int));
            assert(vars@.take(i + 1).last() == vars@[i as int]);
            if !mentioned_any(&self.db, &self.names, inside, vars[i]) && !asked_about(
                &self.db,
                &self.deferred,
                vars[i],
            ) {
                out.push(vars[i]);
            }
            i += 1;
        }
        assert(vars@.take(i as int) =~= vars@);
        out
    }

    pub(crate) fn about(&self, n: &Need, vars: &Vec<u32>) -> (r: bool)
        ensures
            r == infer_spec::about(self@.db, *n, vars@),
    {
        match self.db.deep_resolve(&n.ty) {
            Type::Var(v) => var_position(vars, v).is_some(),
            _ => false,
        }
    }

    /// Takes the waiting requirements about `vars` out.
    pub(crate) fn take_needs(&mut self, vars: &Vec<u32>) -> (r: Vec<Need>)
        ensures
            r@ == infer_spec::needs_about(old(self)@.db, old(self)@.needs, vars@),
            final(self)@ == (Inf {
                needs: infer_spec::needs_left(old(self)@.db, old(self)@.needs, vars@),
                ..old(self)@
            }),
    {
        let mut waiting: Vec<Pending> = Vec::new();
        core::mem::swap(&mut self.needs, &mut waiting);
        let ghost ps = waiting@;
        let ghost s0 = old(self)@;
        let mut out: Vec<Need> = Vec::new();
        let mut i: usize = 0;
        assert(out@ =~= Seq::empty());
        assert(self@.needs =~= Seq::empty());
        while i < waiting.len()
            invariant
                i <= waiting@.len(),
                waiting@ == ps,
                out@ == infer_spec::needs_about(s0.db, ps.take(i as int), vars@),
                self@ == (Inf {
                    needs: infer_spec::needs_left(s0.db, ps.take(i as int), vars@),
                    ..s0
                }),
            decreases waiting@.len() - i,
        {
            assert(ps.take(i + 1).drop_last() =~= ps.take(i as int));
            assert(ps.take(i + 1).last() == ps[i as int]);
            let n = &waiting[i].need;
            if self.about(n, vars) {
                out.push(
                    Need {
                        what: n.what,
                        ty: self.db.deep_resolve(&n.ty),
                        other: self.db.deep_resolve(&n.other),
                        from: Some(arose_at(&waiting[i])),
                    },
                );
            } else {
                self.needs.push(waiting[i].dup());
            }
            i += 1;
        }
        assert(ps.take(i as int) =~= ps);
        out
    }

    /// Lets each use of a symbol choose what nothing outside `inside` mentions.
    pub(crate) fn generalize(&mut self, id: SymbolId, ty: &Type, inside: Span)
        ensures
            final(self)@ == infer_spec::generalize(old(self)@, id, *ty, inside),
    {
        self.resettle();
        let body = self.db.deep_resolve(ty);
        let mut vars: Vec<u32> = Vec::new();
        assert(vars@ =~= Seq::empty());
        collect_vars(&body, &mut vars);
        let binders = self.free_to_choose(inside, &vars);
        let needs = self.take_needs(&binders);
        self.set_scheme(id, Scheme { binders, body, needs });
    }
}

// ---------------------------------------------------------------------------
// Written types
// ---------------------------------------------------------------------------

pub fn plain_type(name: &String) -> (r: Option<Type>)
    ensures
        r == infer_spec::plain_type(name@),
{
    if is(name, "Int") {
        Some(int_type())
    } else if is(name, "Bool") {
        Some(bool_type())
    } else if is(name, "Text") {
        Some(text_type())
    } else if is(name, "Char") {
        Some(Type::Scalar(ScalarType::Char))
    } else if is(name, "Float") {
        Some(float_type())
    } else if is(name, "Unit") {
        Some(Type::Unit)
    } else if is(name, "Never") {
        Some(Type::Never)
    } else {
        None
    }
}

pub fn ctor_named(name: &String) -> (r: Option<CollectionCtor>)
    ensures
        r == infer_spec::ctor_named(name@),
{
    if is(name, "Vec") {
        Some(CollectionCtor::Vec)
    } else if is(name, "Deque") {
        Some(CollectionCtor::Deque)
    } else if is(name, "Map") {
        Some(CollectionCtor::MapOf)
    } else if is(name, "Set") {
        Some(CollectionCtor::SetOf)
    } else if is(name, "Counter") {
        Some(CollectionCtor::Counter)
    } else if is(name, "MinHeap") {
        Some(CollectionCtor::MinHeap)
    } else if is(name, "MaxHeap") {
        Some(CollectionCtor::MaxHeap)
    } else if is(name, "BitSet") {
        Some(CollectionCtor::BitSet)
    } else if is(name, "Grid") {
        Some(CollectionCtor::Grid)
    } else if is(name, "Range") {
        Some(CollectionCtor::Range)
    } else {
        None
    }
}

pub fn tuple_type(ts: &Vec<Type>) -> (r: Type)
    ensures
        r == infer_spec::tuple_type(ts@),
{
    if ts.len() == 0 {
        Type::Unit
    } else {
        Type::Tuple(TypeList::from_vec(ts))
    }
}

/// Whether a declared type takes exactly `n` arguments.
fn takes(t: &Type) -> (r: usize)
    ensures
        r == infer_spec::type_arity(*t),
{
    match t {
        Type::Enum(_, a) => a.to_vec().len(),
        Type::Record(_, a) => a.to_vec().len(),
        _ => 0,
    }
}

fn at_args(t: &Type, args: &Vec<Type>) -> (r: Type)
    ensures
        r == infer_spec::at_args(*t, args@),
{
    match t {
        Type::Enum(d, _) => Type::Enum(*d, TypeList::from_vec(args)),
        Type::Record(d, _) => Type::Record(*d, TypeList::from_vec(args)),
        _ => t.dup(),
    }
}

impl Inferer {
    pub(crate) fn type_named(&self, name: &String) -> (r: Option<Type>)
        ensures
            r == infer_spec::type_named(self@.types, name@),
    {
        let ghost types = self@.types;
        let mut i: usize = self.types.len();
        assert(types.take(i as int) =~= types);
        while i > 0
            invariant
                i <= self.types@.len(),
                types == types_view(self.types@),
                infer_spec::type_named(types, name@) == infer_spec::type_named(
                    types.take(i as int),
                    name@,
                ),
            decreases i,
        {
            assert(types.take(i as int).drop_last() =~= types.take(i - 1));
            assert(types.take(i as int).last() == types[i - 1]);
            i -= 1;
            if self.types[i].0 == *name {
                return Some(self.types[i].1.dup());
            }
        }
        None
    }

    pub(crate) fn wrong_type_arity(&mut self, name: &Ident, range: Span, takes: usize, given: usize) -> (r: Type)
        ensures
            (r, final(self)@) == infer_spec::wrong_type_arity(
                old(self)@,
                *name,
                range,
                takes as nat,
                given as nat,
            ),
    {
        let count = decimal(takes as u64);
        let message = text5("`", &name.text, "` takes ", &count, " type argument(s)");
        self.report(range, DiagCode::WrongTypeArgumentCount, message);
        self.fresh()
    }

    pub(crate) fn unknown_type(&mut self, name: &Ident)
        ensures
            final(self)@ == infer_spec::unknown_type(old(self)@, *name),
    {
        if self.in_scope(&name.text).is_some() || scope_lookup(&self.tops, &name.text).is_some() {
            let message = text3("`", &name.text, "` is not a type");
            self.report(name.range, DiagCode::NotAType, message);
        } else {
            let message = text3("cannot find type `", &name.text, "`");
            self.report(name.range, DiagCode::UnknownType, message);
        }
    }

    pub(crate) fn named_type(&mut self, name: &Ident, range: Span, args: &Vec<Type>) -> (r: Type)
        ensures
            (r, final(self)@) == infer_spec::named_type(old(self)@, *name, range, args@),
    {
        if let Some(t) = self.type_named(&name.text) {
            let n: usize = takes(&t);
            return if n == args.len() {
                at_args(&t, args)
            } else {
                self.wrong_type_arity(name, range, n, args.len())
            };
        }
        if let Some(t) = plain_type(&name.text) {
            return if args.len() == 0 {
                t
            } else {
                self.wrong_type_arity(name, range, 0, args.len())
            };
        }
        if let Some(c) = ctor_named(&name.text) {
            return if c.arity() == args.len() {
                Type::Collection(c, TypeList::from_vec(args))
            } else {
                self.wrong_type_arity(name, range, c.arity(), args.len())
            };
        }
        self.unknown_type(name);
        self.fresh()
    }

    /// A written type.
    pub fn type_of(&mut self, t: &TypeExpr) -> (r: Type)
        ensures
            (r, final(self)@) == infer_spec::type_of(old(self)@, *t),
        decreases t, 1nat,
    {
        match &t.kind {
            TypeExprKind::Name(name, args) => {
                let ts = self.types_of(args);
                self.named_type(name, t.range, &ts)
            },
            TypeExprKind::Tuple(parts) => {
                let ts = self.types_of(parts);
                if ts.len() == 1 {
                    ts[0].dup()
                } else {
                    tuple_type(&ts)
                }
            },
            TypeExprKind::Func(params, result) => {
                let ts = self.types_of(params);
                let r = self.boxed_type(result);
                Type::Func(TypeList::from_vec(&ts), Box::new(r))
            },
        }
    }

    pub(crate) fn boxed_type(&mut self, t: &Option<Box<TypeExpr>>) -> (r: Type)
        ensures
            (r, final(self)@) == infer_spec::boxed_type(old(self)@, *t),
        decreases t, 0nat,
    {
        match t {
            Some(t) => self.type_of(t),
            None => Type::Unit,
        }
    }

    pub(crate) fn types_of(&mut self, ts: &Vec<TypeExpr>) -> (r: Vec<Type>)
        ensures
            (r@, final(self)@) == infer_spec::types_of(old(self)@, ts@),
        decreases ts, 0nat,
    {
        let mut out: Vec<Type> = Vec::new();
        let mut i: usize = 0;
        assert(out@ =~= Seq::empty());
        while i < ts.len()
            invariant
                i <= ts@.len(),
                (out@, self@) == infer_spec::types_of(old(self)@, ts@.take(i as int)),
            decreases ts@.len() - i,
        {
            let t = self.type_of(&ts[i]);
            out.push(t);
            assert(ts@.take(i + 1).drop_last() =~= ts@.take(i as int));
            assert(ts@.take(i + 1).last() == ts@[i as int]);
            i += 1;
        }
        assert(ts@.take(i as int) =~= ts@);
        out
    }

    pub(crate) fn annotated(&mut self, t: &Option<TypeExpr>) -> (r: Type)
        ensures
            (r, final(self)@) == infer_spec::annotated(old(self)@, *t),
    {
        match t {
            Some(t) => self.type_of(t),
            None => self.fresh(),
        }
    }
}

// ---------------------------------------------------------------------------
// Patterns
// ---------------------------------------------------------------------------

pub fn literal_type(tok: &LitToken) -> (r: Option<Type>)
    ensures
        r == infer_spec::literal_type(*tok),
{
    match tok {
        LitToken::Int(_, _) => Some(int_type()),
        LitToken::Float(_) => Some(float_type()),
        LitToken::Text(_) => Some(text_type()),
        LitToken::Char(_) => Some(Type::Scalar(ScalarType::Char)),
        LitToken::True => Some(bool_type()),
        LitToken::False => Some(bool_type()),
        LitToken::Template => None,
        LitToken::Other => None,
    }
}

/// Whether one of the first `n` field patterns has the name.
fn names_pattern(fs: &Vec<FieldPattern>, n: usize, name: &String) -> (r: bool)
    requires
        n <= fs@.len(),
    ensures
        r == infer_spec::names_pattern(fs@.take(n as int), name@),
{
    let mut i: usize = 0;
    let mut found = false;
    while i < n
        invariant
            i <= n <= fs@.len(),
            found == infer_spec::names_pattern(fs@.take(i as int), name@),
        decreases n - i,
    {
        assert(fs@.take(i + 1).drop_last() =~= fs@.take(i as int));
        assert(fs@.take(i + 1).last() == fs@[i as int]);
        if let Some(m) = &fs[i].name {
            if m.text == *name {
                found = true;
            }
        }
        i += 1;
    }
    found
}

fn variant_result(t: Type) -> (r: Type)
    ensures
        r == infer_spec::variant_result(t),
{
    match t {
        Type::Func(_, r) => *r,
        _ => t,
    }
}

impl Inferer {
    pub(crate) fn kind_of(&self, id: SymbolId) -> (r: Option<SymbolKind>)
        ensures
            r == (match lookup(self@.names, id) {
                Some(s) => Some(s.kind),
                None => None,
            }),
    {
        match self.names.get(id) {
            Some(s) => Some(s.kind),
            None => None,
        }
    }

    pub(crate) fn settle_variant(&mut self, name: &Ident, ty: &Type)
        ensures
            final(self)@ == infer_spec::settle_variant(old(self)@, *name, *ty),
    {
        let t = self.db.deep_resolve(ty);
        let found = self.in_scope(&name.text);
        match (t, found) {
            (Type::Var(_), Some(id)) => {
                if let Some(kind) = self.kind_of(id) {
                    if kind == SymbolKind::EnumVariant {
                        let used = self.use_symbol(id, name.range);
                        self.expect(ty, &variant_result(used), name.range);
                    }
                }
            },
            _ => {},
        }
    }

    pub(crate) fn payload_types(&self, name: &String, ty: &Type) -> (r: Vec<Type>)
        ensures
            r@ == infer_spec::payload_types(self@.db, name@, *ty),
    {
        match self.db.deep_resolve(ty) {
            Type::Enum(d, args) => {
                if let Some(i) = self.db.variant_index(d, name) {
                    return self.db.payload_of(d, &args, i);
                }
            },
            _ => {},
        }
        let none: Vec<Type> = Vec::new();
        assert(none@ =~= Seq::empty());
        none
    }

    pub(crate) fn bind_name(&mut self, name: &Ident, ty: &Type)
        ensures
            final(self)@ == infer_spec::bind_name(old(self)@, *name, *ty),
    {
        let is_variant = match self.db.deep_resolve(ty) {
            Type::Enum(d, _) => self.db.variant_index(d, &name.text).is_some(),
            _ => false,
        };
        if !is_variant {
            self.declare_mono(name, SymbolKind::Pattern, ty);
        }
    }

    pub(crate) fn expect_head(&mut self, head: &Option<Ident>, ty: &Type, range: Span)
        ensures
            final(self)@ == infer_spec::expect_head(old(self)@, *head, *ty, range),
    {
        if let Some(n) = head {
            if let Some(t) = self.type_named(&n.text) {
                self.expect(ty, &t, n.range);
            } else if plain_type(&n.text).is_none() && ctor_named(&n.text).is_none()
                && self.in_scope(&n.text).is_none() {
                self.unknown_name(n);
            }
        } else if let Type::Var(_) = self.db.deep_resolve(ty) {
            let message = text(
                "`{ … }` needs a record whose fields are known: name the record, or annotate the value",
            );
            self.report(range, DiagCode::NotAPatternForType, message);
        }
    }

    pub(crate) fn field_of(&self, ty: &Type, name: &String) -> (r: Option<Type>)
        ensures
            r == infer_spec::field_of(self@.db, *ty, name@),
    {
        match self.db.deep_resolve(ty) {
            Type::Record(d, args) => match self.db.field_index(d, name) {
                Some(i) => Some(self.db.field_type(d, &args, i)),
                None => None,
            },
            _ => None,
        }
    }

    pub(crate) fn check_field_pattern(
        &mut self,
        fs: &Vec<FieldPattern>,
        i: usize,
        name: &Ident,
        ty: &Type,
    )
        requires
            i < fs@.len(),
        ensures
            final(self)@ == infer_spec::check_field_pattern(
                old(self)@,
                fs@.take(i as int),
                *name,
                *ty,
            ),
    {
        if names_pattern(fs, i, &name.text) {
            let message = text3("field `", &name.text, "` is named twice");
            self.report(name.range, DiagCode::DuplicateField, message);
            return;
        }
        let is_record = match self.db.deep_resolve(ty) {
            Type::Record(_, _) => true,
            _ => false,
        };
        if is_record && self.field_of(ty, &name.text).is_none() {
            let message = text3("no field `", &name.text, "`");
            self.report(name.range, DiagCode::UnknownField, message);
        }
    }

    pub(crate) fn type_at(&mut self, ts: &Vec<Type>, i: usize) -> (r: Type)
        ensures
            (r, final(self)@) == infer_spec::type_at(old(self)@, ts@, i as int),
    {
        if i < ts.len() {
            ts[i].dup()
        } else {
            self.fresh()
        }
    }

    /// Declares the names of a pattern that matches values of type `ty`.
    pub fn bind_pattern(&mut self, p: &Pattern, ty: &Type)
        ensures
            final(self)@ == infer_spec::bind_pattern(old(self)@, *p, *ty),
        decreases p, 1nat,
    {
        match &p.kind {
            PatternKind::Wildcard => {},
            PatternKind::Literal(tok) => {
                if let Some(tok) = tok {
                    if let Some(t) = literal_type(tok) {
                        self.expect(ty, &t, p.range);
                    }
                }
            },
            PatternKind::Name(name) => self.bind_name(name, ty),
            PatternKind::Variant(name, subs) => {
                self.settle_variant(name, ty);
                let payload = self.payload_types(&name.text, ty);
                self.bind_patterns(subs, &payload);
            },
            PatternKind::Tuple(subs) => {
                let ts = self.fresh_many(subs.len());
                self.expect(ty, &tuple_type(&ts), p.range);
                self.bind_patterns(subs, &ts);
            },
            PatternKind::Record(head, fields) => {
                self.expect_head(head, ty, p.range);
                self.bind_fields(fields, ty);
            },
        }
    }

    pub(crate) fn bind_patterns(&mut self, ps: &Vec<Pattern>, ts: &Vec<Type>)
        ensures
            final(self)@ == infer_spec::bind_patterns(old(self)@, ps@, ts@),
        decreases ps, 0nat,
    {
        let mut i: usize = 0;
        while i < ps.len()
            invariant
                i <= ps@.len(),
                self@ == infer_spec::bind_patterns(old(self)@, ps@.take(i as int), ts@),
            decreases ps@.len() - i,
        {
            let t = self.type_at(ts, i);
            self.bind_pattern(&ps[i], &t);
            assert(ps@.take(i + 1).drop_last() =~= ps@.take(i as int));
            assert(ps@.take(i + 1).last() == ps@[i as int]);
            i += 1;
        }
        assert(ps@.take(i as int) =~= ps@);
    }

    pub(crate) fn bind_fields(&mut self, fs: &Vec<FieldPattern>, ty: &Type)
        ensures
            final(self)@ == infer_spec::bind_fields(old(self)@, fs@, *ty),
        decreases fs, 0nat,
    {
        let mut i: usize = 0;
        while i < fs.len()
            invariant
                i <= fs@.len(),
                self@ == infer_spec::bind_fields(old(self)@, fs@.take(i as int), *ty),
            decreases fs@.len() - i,
        {
            proof {
                assert(decreases_to!(fs => fs@[i as int]));
            }
            assert(fs@.take(i + 1).drop_last() =~= fs@.take(i as int));
            assert(fs@.take(i + 1).last() == fs@[i as int]);
            if let Some(n) = &fs[i].name {
                self.check_field_pattern(fs, i, n, ty);
            }
            self.bind_field(&fs[i], ty);
            i += 1;
        }
        assert(fs@.take(i as int) =~= fs@);
    }

    pub(crate) fn bind_field(&mut self, f: &FieldPattern, ty: &Type)
        ensures
            final(self)@ == infer_spec::bind_field(old(self)@, *f, *ty),
        decreases f, 2nat,
    {
        let known = match &f.name {
            Some(n) => self.field_of(ty, &n.text),
            None => None,
        };
        let t = match known {
            Some(t) => t,
            None => self.fresh(),
        };
        match &f.pattern {
            Some(p) => self.bind_pattern(p, &t),
            None => {
                if let Some(n) = &f.name {
                    self.declare_mono(n, SymbolKind::Pattern, &t);
                }
            },
        }
    }

    pub(crate) fn bind_opt(&mut self, p: &Option<Pattern>, ty: &Type)
        ensures
            final(self)@ == infer_spec::bind_opt(old(self)@, *p, *ty),
    {
        if let Some(p) = p {
            self.bind_pattern(p, ty);
        }
    }
}

// ---------------------------------------------------------------------------
// Operators and places
// ---------------------------------------------------------------------------

pub(crate) fn span_of(e: &Option<Box<Expr>>, whole: Span) -> (r: Span)
    ensures
        r == infer_spec::span_of(*e, whole),
{
    match e {
        Some(e) => e.range,
        None => whole,
    }
}

fn is_float(t: &Type) -> (r: bool)
    ensures
        r == (*t == infer_spec::float_type()),
{
    match t {
        Type::Scalar(ScalarType::Float) => true,
        _ => false,
    }
}

fn is_text(t: &Type) -> (r: bool)
    ensures
        r == (*t == infer_spec::text_type()),
{
    match t {
        Type::Scalar(ScalarType::Text) => true,
        _ => false,
    }
}

/// What subscripting a `t` takes and gives.
pub fn subscript(t: &Type) -> (r: Option<(Vec<Type>, Type)>)
    ensures
        match infer_spec::subscript(*t) {
            Some((takes, gives)) => r matches Some(p) && p.0@ == takes && p.1 == gives,
            None => r is None,
        },
{
    match t {
        Type::Scalar(ScalarType::Text) => {
            let takes = vec![int_type()];
            assert(takes@ =~= seq![infer_spec::int_type()]);
            Some((takes, Type::Scalar(ScalarType::Char)))
        },
        Type::Collection(c, a) => match a {
            TypeList::Nil => None,
            TypeList::Cons(h, rest) => match c {
                CollectionCtor::Vec | CollectionCtor::Deque => {
                    let takes = vec![int_type()];
                    assert(takes@ =~= seq![infer_spec::int_type()]);
                    Some((takes, h.dup()))
                },
                CollectionCtor::Counter => {
                    let takes = vec![h.dup()];
                    assert(takes@ =~= seq![**h]);
                    Some((takes, int_type()))
                },
                CollectionCtor::Grid => {
                    let takes = vec![int_type(), int_type()];
                    assert(takes@ =~= seq![infer_spec::int_type(), infer_spec::int_type()]);
                    Some((takes, h.dup()))
                },
                CollectionCtor::MapOf => match &**rest {
                    TypeList::Cons(v, _) => {
                        let takes = vec![h.dup()];
                        assert(takes@ =~= seq![**h]);
                        Some((takes, v.dup()))
                    },
                    TypeList::Nil => None,
                },
                _ => None,
            },
        },
        _ => None,
    }
}

impl Inferer {
    pub(crate) fn has_text(&self, l: &Type, r: &Type) -> (b: bool)
        ensures
            b == infer_spec::has_text(self@.db, *l, *r),
    {
        is_text(&self.db.deep_resolve(l)) || is_text(&self.db.deep_resolve(r))
    }

    pub(crate) fn undefined(&mut self, t: &Type, span: Span)
        ensures
            final(self)@ == infer_spec::undefined(old(self)@, *t, span),
    {
        let shown = self.shown(t);
        let message = text3("this operation is not defined for `", &shown, "`");
        self.report(span, DiagCode::UndefinedOperation, message);
    }

    pub(crate) fn number_type(&self, l: &Type, r: &Type) -> (t: Type)
        ensures
            t == infer_spec::number_type(self@.db, *l, *r),
    {
        if is_float(&self.db.deep_resolve(l)) || is_float(&self.db.deep_resolve(r)) {
            float_type()
        } else {
            int_type()
        }
    }

    pub(crate) fn both_at(&mut self, t: &Type, l: &Type, r: &Type, at_l: Span, at_r: Span)
        ensures
            final(self)@ == infer_spec::both_at(old(self)@, *t, *l, *r, at_l, at_r),
    {
        self.expect(t, l, at_l);
        self.expect(t, r, at_r);
    }

    pub(crate) fn compare(&mut self, what: Capability, l: Type, r: Type, at_r: Span, whole: Span)
        ensures
            final(self)@ == ({
                let (t, s1) = infer_spec::join(old(self)@, l, r, at_r);
                infer_spec::require(s1, what, t, t, whole)
            }),
    {
        let t = self.join(l, r, at_r);
        self.require(what, &t, &t, whole);
    }

    pub(crate) fn bin_type(
        &mut self,
        op: &Option<BinToken>,
        l: Type,
        r: Type,
        at_l: Span,
        at_r: Span,
        whole: Span,
    ) -> (t: Type)
        ensures
            (t, final(self)@) == infer_spec::bin_type(old(self)@, *op, l, r, at_l, at_r, whole),
    {
        let Some(op) = op else {
            return self.fresh();
        };
        match op {
            BinToken::Eq2 | BinToken::Neq => {
                self.compare(Capability::Equatable, l, r, at_r, whole);
                bool_type()
            },
            BinToken::Lt | BinToken::Gt | BinToken::LtEq | BinToken::GtEq => {
                self.compare(Capability::Orderable, l, r, at_r, whole);
                bool_type()
            },
            BinToken::Pipe2 | BinToken::Amp2 => {
                self.both_at(&bool_type(), &l, &r, at_l, at_r);
                bool_type()
            },
            _ => {
                if self.has_text(&l, &r) {
                    if *op == BinToken::Plus {
                        self.both_at(&text_type(), &l, &r, at_l, at_r);
                    } else {
                        self.undefined(&text_type(), whole);
                    }
                    return text_type();
                }
                let t = self.number_type(&l, &r);
                self.both_at(&t, &l, &r, at_l, at_r);
                if *op == BinToken::Percent && is_float(&t) {
                    self.undefined(&t, whole);
                }
                t
            },
        }
    }

    pub(crate) fn unary_type(&mut self, op: &Option<UnaryToken>, t: Type, span: Span) -> (r: Type)
        ensures
            (r, final(self)@) == infer_spec::unary_type(old(self)@, *op, t, span),
    {
        match op {
            None => t,
            Some(UnaryToken::Bang) => {
                self.expect(&bool_type(), &t, span);
                bool_type()
            },
            Some(UnaryToken::Minus) => {
                let n = self.number_type(&t, &t);
                self.expect(&n, &t, span);
                n
            },
        }
    }

    pub(crate) fn store(
        &mut self,
        how: StoreOp,
        target: &Type,
        value: &Type,
        at_value: Span,
        whole: Span,
    )
        ensures
            final(self)@ == infer_spec::store(
                old(self)@,
                how,
                *target,
                *value,
                at_value,
                whole,
            ),
    {
        let t = self.db.deep_resolve(target);
        if how == StoreOp::Replace || (how == StoreOp::Add && is_text(&t)) {
            self.expect(target, value, at_value);
            return;
        }
        if how == StoreOp::Remainder && is_float(&t) {
            self.undefined(&t, whole);
            return;
        }
        match numeric(&t) {
            Answer::Yes => self.expect(target, value, at_value),
            Answer::No => {
                let shown = self.shown(&t);
                let message = text3("`", &shown, "` is not a number");
                self.report(whole, DiagCode::NotNumericOperation, message);
            },
            Answer::Later => {
                self.require(Capability::Numeric, target, target, whole);
                self.expect(target, value, at_value);
            },
        }
    }

    /// Makes each argument agree with its parameter.
    pub(crate) fn expect_each(&mut self, want: &Vec<Type>, got: &Vec<Type>, es: &Vec<Expr>)
        requires
            want@.len() == es@.len(),
            got@.len() == es@.len(),
        ensures
            final(self)@ == infer_spec::expect_each(old(self)@, want@, got@, es@),
    {
        let mut i: usize = 0;
        while i < es.len()
            invariant
                i <= es@.len(),
                want@.len() == es@.len(),
                got@.len() == es@.len(),
                self@ == infer_spec::expect_each(
                    old(self)@,
                    want@.take(i as int),
                    got@.take(i as int),
                    es@.take(i as int),
                ),
            decreases es@.len() - i,
        {
            self.expect(&want[i], &got[i], es[i].range);
            assert(es@.take(i + 1).drop_last() =~= es@.take(i as int));
            assert(want@.take(i + 1).drop_last() =~= want@.take(i as int));
            assert(got@.take(i + 1).drop_last() =~= got@.take(i as int));
            i += 1;
        }
        assert(es@.take(i as int) =~= es@);
        assert(want@.take(i as int) =~= want@);
        assert(got@.take(i as int) =~= got@);
    }

    pub(crate) fn not_indexable(&mut self, t: &Type, span: Span) -> (r: Type)
        ensures
            (r, final(self)@) == infer_spec::not_indexable(old(self)@, *t, span),
    {
        self.refuse(Capability::Indexable, t, span);
        self.fresh()
    }

    pub(crate) fn index_type(&mut self, recv: &Type, is: &Vec<Type>, es: &Vec<Expr>, span: Span) -> (r: Type)
        requires
            is@.len() == es@.len(),
        ensures
            (r, final(self)@) == infer_spec::index_type(old(self)@, *recv, is@, es@, span),
    {
        let t = self.db.deep_resolve(recv);
        match &t {
            Type::Var(_) => self.defer(Asked::Subscript, "[]", span, &t, is),
            Type::Never => self.fresh(),
            _ => {
                if let Some((takes, gives)) = subscript(&t) {
                    if takes.len() == es.len() {
                        self.expect_each(&takes, is, es);
                        self.note_subscript(span, "[]", es.len(), &t, &gives);
                        return gives;
                    }
                }
                self.not_indexable(&t, span)
            },
        }
    }

    pub(crate) fn no_field(&mut self, t: &Type, name: &String, span: Span)
        ensures
            final(self)@ == infer_spec::no_field(old(self)@, *t, name@, span),
    {
        let shown = self.shown(t);
        let message = text5("`", &shown, "` has no field `", name, "`");
        self.report(span, DiagCode::NoFieldOnType, message);
    }

    /// Keeps a question for later.
    pub(crate) fn defer(
        &mut self,
        asked: Asked,
        name: &str,
        at: Span,
        receiver: &Type,
        args: &Vec<Type>,
    ) -> (r: Type)
        ensures
            (r, final(self)@) == infer_spec::defer(
                old(self)@,
                asked,
                name@,
                at,
                *receiver,
                args@,
            ),
    {
        let result = self.fresh();
        let d = Deferred {
            asked,
            name: text(name),
            at,
            receiver: receiver.dup(),
            args: TypeList::from_vec(args),
            result: result.dup(),
        };
        let ghost before = self@.deferred;
        self.deferred.push(d);
        assert(self@.deferred =~= before.push(d@));
        result
    }

    pub(crate) fn field_get(&mut self, recv: &Type, name: &Option<Ident>) -> (r: Type)
        ensures
            (r, final(self)@) == infer_spec::field_get(old(self)@, *recv, *name),
    {
        let t = self.db.deep_resolve(recv);
        let Some(n) = name else {
            return self.fresh();
        };
        match &t {
            Type::Var(_) => {
                let none: Vec<Type> = Vec::new();
                assert(none@ =~= Seq::empty());
                self.defer(Asked::Field, &n.text, n.range, &t, &none)
            },
            Type::Never => self.fresh(),
            _ => {
                if let Some(f) = self.field_of(&t, &n.text) {
                    return f;
                }
                self.no_field(&t, &n.text, n.range);
                self.fresh()
            },
        }
    }

    pub(crate) fn no_element(&mut self, t: &Type, span: Span) -> (r: Type)
        ensures
            (r, final(self)@) == infer_spec::no_element(old(self)@, *t, span),
    {
        let shown = self.shown(t);
        let message = text3("`", &shown, "` has no such element");
        self.report(span, DiagCode::NoTupleElement, message);
        self.fresh()
    }

    pub(crate) fn tuple_get(&mut self, recv: &Type, index: &Option<u64>, span: Span) -> (r: Type)
        ensures
            (r, final(self)@) == infer_spec::tuple_get(old(self)@, *recv, *index, span),
    {
        let t = self.db.deep_resolve(recv);
        match &t {
            Type::Var(_) => self.fresh(),
            Type::Never => self.fresh(),
            Type::Tuple(l) => {
                let parts = l.to_vec();
                if let Some(i) = index {
                    if *i < parts.len() as u64 {
                        return parts[*i as usize].dup();
                    }
                }
                self.no_element(&t, span)
            },
            _ => self.no_element(&t, span),
        }
    }
}

// ---------------------------------------------------------------------------
// Names and calls
// ---------------------------------------------------------------------------

fn called_only(s: &Symbol) -> (r: bool)
    ensures
        r == infer_spec::called_only(s@),
{
    match &s.scheme {
        Some(scheme) => {
            let is_func = match &scheme.body {
                Type::Func(_, _) => true,
                _ => false,
            };
            is_func && (s.kind == SymbolKind::Builtin || s.kind == SymbolKind::EnumVariant)
        },
        None => false,
    }
}

fn generic_fn(s: &Symbol) -> (r: bool)
    ensures
        r == infer_spec::generic_fn(s@),
{
    match &s.scheme {
        Some(scheme) => scheme.binders.len() > 0 && s.kind == SymbolKind::Fn,
        None => false,
    }
}

fn remedy(name: &String, t: &Type) -> (r: String)
    ensures
        r@ == infer_spec::remedy(name@, *t),
{
    if let Type::Func(ps, _) = t {
        if let TypeList::Nil = ps {
            return text3("call it: `", name, "()`");
        }
    }
    text3("write `|x| ", name, "(x)`")
}

fn same_head(a: &Type, b: &Type) -> (r: bool)
    ensures
        r == infer_spec::same_head(*a, *b),
{
    match (a, b) {
        (Type::Scalar(x), Type::Scalar(y)) => *x == *y,
        (Type::Collection(c, _), Type::Collection(d, _)) => *c == *d,
        (Type::Enum(d, _), Type::Enum(f, _)) => *d == *f,
        (Type::Record(d, _), Type::Record(f, _)) => *d == *f,
        (Type::Tuple(_), Type::Tuple(_)) => true,
        (Type::Unit, Type::Unit) => true,
        _ => false,
    }
}

fn row_fits(row: &MethodRow, name: &str, count: usize, t: &Type) -> (r: bool)
    ensures
        r == infer_spec::row_fits(row@, name@, count as nat, *t),
{
    let named = is(&row.name, name);
    if !named {
        return false;
    }
    match &row.scheme.body {
        Type::Func(ps, _) => match ps {
            TypeList::Cons(recv, rest) => {
                if rest.to_vec().len() != count {
                    false
                } else if row.entry.receiver_is_iterable {
                    item_of(t).is_some()
                } else {
                    same_head(recv, t)
                }
            },
            TypeList::Nil => false,
        },
        _ => false,
    }
}

proof fn lemma_row_prefix(rows: Seq<MethodRowView>, name: Seq<char>, count: nat, t: Type, n: int)
    requires
        0 <= n <= rows.len(),
        infer_spec::first_row(rows.take(n), name, count, t) is Some,
    ensures
        infer_spec::first_row(rows, name, count, t) == infer_spec::first_row(
            rows.take(n),
            name,
            count,
            t,
        ),
    decreases rows.len(),
{
    if n == rows.len() {
        assert(rows.take(n) =~= rows);
    } else {
        assert(rows.drop_last().take(n) =~= rows.take(n));
        lemma_row_prefix(rows.drop_last(), name, count, t, n);
    }
}

fn takes_args(body: &Type, count: usize) -> (r: bool)
    ensures
        r == infer_spec::takes_args(*body, count as nat),
{
    match body {
        Type::Func(ps, _) => match ps {
            TypeList::Cons(_, rest) => rest.to_vec().len() == count,
            TypeList::Nil => false,
        },
        _ => false,
    }
}

/// Whether some type has a method of the name and number of arguments.
pub fn is_known(rows: &Vec<MethodRow>, name: &String, count: usize) -> (r: bool)
    ensures
        r == infer_spec::is_known(row_views(rows@), name@, count as nat),
{
    let ghost all = row_views(rows@);
    let mut found = false;
    let mut i: usize = 0;
    while i < rows.len()
        invariant
            i <= rows@.len(),
            all == row_views(rows@),
            found == infer_spec::is_known(all.take(i as int), name@, count as nat),
        decreases rows@.len() - i,
    {
        assert(all.take(i + 1).drop_last() =~= all.take(i as int));
        assert(all.take(i + 1).last() == rows@[i as int]@);
        if rows[i].name == *name && takes_args(&rows[i].scheme.body, count) {
            found = true;
        }
        i += 1;
    }
    assert(all.take(i as int) =~= all);
    found
}

/// The first row that fits.
pub fn first_row(rows: &Vec<MethodRow>, name: &str, count: usize, t: &Type) -> (r: Option<usize>)
    ensures
        match infer_spec::first_row(row_views(rows@), name@, count as nat, *t) {
            Some(i) => r matches Some(k) && k == i && i < rows@.len(),
            None => r is None,
        },
{
    let ghost all = row_views(rows@);
    let mut i: usize = 0;
    while i < rows.len()
        invariant
            i <= rows@.len(),
            all == row_views(rows@),
            infer_spec::first_row(all.take(i as int), name@, count as nat, *t) is None,
        decreases rows@.len() - i,
    {
        assert(all.take(i + 1).drop_last() =~= all.take(i as int));
        assert(all.take(i + 1).last() == rows@[i as int]@);
        if row_fits(&rows[i], name, count, t) {
            proof {
                lemma_row_prefix(all, name@, count as nat, *t, i + 1);
            }
            return Some(i);
        }
        i += 1;
    }
    assert(all.take(i as int) =~= all);
    None
}

fn sized_arity(c: CollectionCtor) -> (r: usize)
    ensures
        r == infer_spec::sized_arity(c),
{
    match c {
        CollectionCtor::Vec => 2,
        CollectionCtor::Grid => 3,
        _ => 0,
    }
}

fn sized_params(c: CollectionCtor, items: &Vec<Type>) -> (r: Vec<Type>)
    requires
        items@.len() == c.spec_arity(),
    ensures
        r@ == infer_spec::sized_params(c, items@),
        r@.len() == infer_spec::sized_arity(c),
{
    match c {
        CollectionCtor::Vec => {
            let r = vec![int_type(), items[0].dup()];
            assert(r@ =~= infer_spec::sized_params(c, items@));
            r
        },
        CollectionCtor::Grid => {
            let r = vec![int_type(), int_type(), items[0].dup()];
            assert(r@ =~= infer_spec::sized_params(c, items@));
            r
        },
        _ => {
            let r: Vec<Type> = Vec::new();
            assert(r@ =~= Seq::empty());
            r
        },
    }
}

impl Inferer {
    /// A row at a receiver: what its arguments have to be, and its result.
    pub(crate) fn use_row(&mut self, i: usize, t: &Type, span: Span) -> (r: (Vec<Type>, Type))
        requires
            i < old(self).methods@.len(),
        ensures
            (r.0@, r.1, final(self)@) == infer_spec::use_row(
                old(self)@,
                old(self)@.methods[i as int],
                *t,
                span,
            ),
    {
        let scheme = self.methods[i].scheme.dup();
        assert(self@.methods[i as int].scheme == scheme@);
        let args = self.fresh_many(scheme.binders.len());
        let f = scheme.body.filled(&scheme.binders, &args);
        let none: Vec<Type> = Vec::new();
        assert(none@ =~= Seq::empty());
        match f {
            Type::Func(ps, r) => match ps {
                TypeList::Cons(recv, rest) => {
                    self.expect(&recv, t, span);
                    let needs = chosen_needs(&scheme.needs, &scheme.binders, &args, span);
                    self.settle_all(&needs);
                    (rest.to_vec(), *r)
                },
                TypeList::Nil => (none, *r),
            },
            _ => (none, f),
        }
    }

    pub(crate) fn no_method(&mut self, name: &String, span: Span, t: &Type, count: usize)
        ensures
            final(self)@ == infer_spec::no_method(old(self)@, name@, span, *t, count as nat),
    {
        let shown = self.shown(t);
        let n = decimal(count as u64);
        let head = text5("no method `", name, "` on type `", &shown, "` taking ");
        self.report(span, DiagCode::NoMethodOnType, text3(&head, &n, " argument(s)"));
    }

    pub(crate) fn no_such_method(&mut self, name: &Ident, count: usize)
        ensures
            final(self)@ == infer_spec::no_such_method(old(self)@, *name, count as nat),
    {
        let n = decimal(count as u64);
        let message = text5("no type has a method `", &name.text, "` taking ", &n, " argument(s)");
        self.report(name.range, DiagCode::NoMethodOnType, message);
    }

    pub(crate) fn note_method(&mut self, span: Span, entry: MethodEntry, receiver: &Type, result: &Type)
        ensures
            final(self)@ == infer_spec::note_method(
                old(self)@,
                span,
                entry,
                *receiver,
                *result,
            ),
    {
        self.method_refs.insert(
            span,
            MethodRef { entry, receiver: receiver.dup(), result: result.dup() },
        );
    }

    pub(crate) fn note_subscript(
        &mut self,
        span: Span,
        name: &str,
        count: usize,
        receiver: &Type,
        result: &Type,
    )
        ensures
            final(self)@ == infer_spec::note_subscript(
                old(self)@,
                span,
                name@,
                count as nat,
                *receiver,
                *result,
            ),
    {
        if let Some(i) = first_row(&self.methods, name, count, receiver) {
            let entry = self.methods[i].entry;
            assert(self@.methods[i as int].entry == entry);
            self.note_method(span, entry, receiver, result);
        }
    }

    fn expect_all(&mut self, want: &Vec<Type>, got: &Vec<Type>, span: Span)
        ensures
            final(self)@ == infer_spec::expect_all(
                old(self)@,
                want@,
                got@,
                infer_spec::shorter(want@.len(), got@.len()),
                span,
            ),
    {
        let mut i: usize = 0;
        while i < want.len() && i < got.len()
            invariant
                i <= want@.len(),
                i <= got@.len(),
                self@ == infer_spec::expect_all(old(self)@, want@, got@, i as nat, span),
            decreases want@.len() - i,
        {
            self.expect(&want[i], &got[i], span);
            i += 1;
        }
    }

    fn answer_method(&mut self, d: &Deferred, t: &Type)
        ensures
            final(self)@ == infer_spec::answer_method(old(self)@, d@, *t),
    {
        let got = d.args.to_vec();
        match first_row(&self.methods, &d.name, got.len(), t) {
            None => self.no_method(&d.name, d.at, t, got.len()),
            Some(i) => {
                let entry = self.methods[i].entry;
                assert(self@.methods[i as int].entry == entry);
                let (wants, r) = self.use_row(i, t, d.at);
                self.expect_all(&wants, &got, d.at);
                self.expect(&d.result, &r, d.at);
                self.note_method(d.at, entry, t, &r);
            },
        }
    }

    fn answer_field(&mut self, d: &Deferred, t: &Type)
        ensures
            final(self)@ == infer_spec::answer_field(old(self)@, d@, *t),
    {
        match self.field_of(t, &d.name) {
            Some(f) => self.expect(&d.result, &f, d.at),
            None => self.no_field(t, &d.name, d.at),
        }
    }

    fn answer_subscript(&mut self, d: &Deferred, t: &Type)
        ensures
            final(self)@ == infer_spec::answer_subscript(old(self)@, d@, *t),
    {
        let got = d.args.to_vec();
        if let Some((takes, gives)) = subscript(t) {
            if takes.len() == got.len() {
                self.expect_all(&takes, &got, d.at);
                self.expect(&d.result, &gives, d.at);
                self.note_subscript(d.at, "[]", got.len(), t, &gives);
                return;
            }
        }
        self.refuse(Capability::Indexable, t, d.at);
    }

    /// Answers one question, or keeps it for later.
    fn answer(&mut self, d: &Deferred)
        ensures
            final(self)@ == infer_spec::answer(old(self)@, d@),
    {
        let t = self.db.deep_resolve(&d.receiver);
        match &t {
            Type::Var(_) => {
                let kept = d.dup();
                self.deferred.push(kept);
                assert(self@.deferred =~= old(self)@.deferred.push(d@));
            },
            Type::Never => {},
            _ => match d.asked {
                Asked::Method => self.answer_method(d, &t),
                Asked::Field => self.answer_field(d, &t),
                Asked::Subscript => self.answer_subscript(d, &t),
                Asked::Store => self.answer_store(d, &t),
            },
        }
    }

    fn no_store(&mut self, name: &String, t: &Type, span: Span)
        ensures
            final(self)@ == infer_spec::no_store(old(self)@, name@, *t, span),
    {
        let shown = self.shown(t);
        let message = text5("`", &shown, "` has no `", store_word(name), "` through a subscript");
        self.report(span, DiagCode::NotIndexable, message);
    }

    /// A store through a subscript, by the row for it.
    pub(crate) fn answer_store(&mut self, d: &Deferred, t: &Type)
        ensures
            final(self)@ == infer_spec::answer_store(old(self)@, d@, *t),
    {
        let got = d.args.to_vec();
        if first_row(&self.methods, &d.name, got.len(), t).is_none() {
            self.no_store(&d.name, t, d.at);
        } else {
            self.answer_method(d, t);
        }
    }

    /// Settles what has been waiting.
    pub(crate) fn resettle(&mut self)
        ensures
            final(self)@ == infer_spec::resettle(old(self)@),
    {
        self.settle_needs();
        let mut waiting: Vec<Deferred> = Vec::new();
        core::mem::swap(&mut self.deferred, &mut waiting);
        assert(self@.deferred =~= Seq::empty());
        let ghost s0 = self@;
        let ghost ds = deferred_views(waiting@);
        let mut i: usize = 0;
        while i < waiting.len()
            invariant
                i <= waiting@.len(),
                ds == deferred_views(waiting@),
                self@ == infer_spec::answer_all(s0, ds.take(i as int)),
            decreases waiting@.len() - i,
        {
            assert(ds.take(i + 1).drop_last() =~= ds.take(i as int));
            assert(ds.take(i + 1).last() == waiting@[i as int]@);
            self.answer(&waiting[i]);
            i += 1;
        }
        assert(ds.take(i as int) =~= ds);
        self.settle_needs();
    }

    pub(crate) fn resettle_times(&mut self, n: usize)
        ensures
            final(self)@ == infer_spec::resettle_times(old(self)@, n as nat),
    {
        let mut i: usize = 0;
        while i < n
            invariant
                i <= n,
                self@ == infer_spec::resettle_times(old(self)@, i as nat),
            decreases n - i,
        {
            self.resettle();
            i += 1;
        }
    }

    pub(crate) fn path_report(&mut self, name: &Ident, id: SymbolId, t: &Type)
        ensures
            final(self)@ == infer_spec::path_report(old(self)@, *name, id, *t),
    {
        let (called, generic) = match self.names.get(id) {
            Some(s) => (called_only(s), generic_fn(s)),
            None => (false, false),
        };
        if called {
            let hint = remedy(&name.text, t);
            let head = text3("`", &name.text, "` is not a value; ");
            self.report(name.range, DiagCode::ConstructorValue, text2(&head, &hint));
        } else if generic {
            let message = text3("`", &name.text, "` is generic and has to be called");
            self.report(name.range, DiagCode::GenericFunctionValue, message);
        }
    }

    /// A name used as a value.
    pub(crate) fn infer_name(&mut self, name: &Ident) -> (r: Type)
        ensures
            (r, final(self)@) == infer_spec::infer_name(old(self)@, *name),
    {
        if let Some(id) = self.in_scope(&name.text) {
            let t = self.use_symbol(id, name.range);
            self.refer(name.range, id, &t);
            self.path_report(name, id, &t);
            return t;
        }
        if ctor_named(&name.text).is_some() {
            let message = text5(
                "`",
                &name.text,
                "` is not a value; call it: `",
                &name.text,
                "()`",
            );
            self.report(name.range, DiagCode::ConstructorValue, message);
        } else {
            self.unknown_name(name);
        }
        self.fresh()
    }

    pub(crate) fn wrong_count(&mut self, takes: usize, given: usize, span: Span)
        ensures
            final(self)@ == infer_spec::wrong_count(old(self)@, takes as nat, given as nat, span),
    {
        let t = decimal(takes as u64);
        let g = decimal(given as u64);
        let message = text5(
            "this function takes ",
            &t,
            " argument(s), but ",
            &g,
            " were given",
        );
        self.report(span, DiagCode::ArgumentCount, message);
    }

    pub(crate) fn call_type(&mut self, f: &Type, got: &Vec<Type>, es: &Vec<Expr>, span: Span) -> (r: Type)
        requires
            got@.len() == es@.len(),
        ensures
            (r, final(self)@) == infer_spec::call_type(old(self)@, *f, got@, es@, span),
    {
        let t = self.db.deep_resolve(f);
        match &t {
            Type::Func(ps, r) => {
                let want = ps.to_vec();
                if want.len() == es.len() {
                    self.expect_each(&want, got, es);
                } else {
                    self.wrong_count(want.len(), es.len(), span);
                }
                r.dup()
            },
            Type::Var(_) => {
                let r = self.fresh();
                let made = Type::Func(TypeList::from_vec(got), Box::new(r.dup()));
                self.expect(&t, &made, span);
                r
            },
            _ => {
                let shown = self.shown(&t);
                let message = text3("`", &shown, "` cannot be called");
                self.report(span, DiagCode::NotCallable, message);
                self.fresh()
            },
        }
    }

    pub(crate) fn note_call(&mut self, name: &Ident, callee: SymbolId, got: &Vec<Type>, result: &Type)
        ensures
            final(self)@ == infer_spec::note_call(old(self)@, *name, callee, got@, *result),
    {
        self.call_sites.insert(
            name.range,
            CallSite { callee, arg_types: TypeList::from_vec(got), result: result.dup() },
        );
        if let Some((f, _)) = self.inside {
            self.calls.push((f, callee));
        }
    }

    pub(crate) fn ctor_args(&mut self, c: CollectionCtor, name: &Ident, ts: Vec<Type>) -> (r: Vec<Type>)
        ensures
            (r@, final(self)@) == infer_spec::ctor_args(old(self)@, c, *name, ts@),
            r@.len() == c.spec_arity(),
    {
        if ts.len() == c.arity() {
            return ts;
        }
        if ts.len() != 0 {
            let _ = self.wrong_type_arity(name, name.range, c.arity(), ts.len());
        }
        let r = self.fresh_many(c.arity());
        r
    }

    pub(crate) fn construct(
        &mut self,
        c: CollectionCtor,
        items: &Vec<Type>,
        got: &Vec<Type>,
        es: &Vec<Expr>,
        span: Span,
    ) -> (r: Type)
        requires
            got@.len() == es@.len(),
            items@.len() == c.spec_arity(),
        ensures
            (r, final(self)@) == infer_spec::construct(old(self)@, c, items@, got@, es@, span),
    {
        if es.len() != 0 {
            if es.len() == sized_arity(c) {
                let want = sized_params(c, items);
                self.expect_each(&want, got, es);
            } else {
                self.wrong_count(sized_arity(c), es.len(), span);
            }
        }
        Type::Collection(c, TypeList::from_vec(items))
    }

    // -----------------------------------------------------------------------
    // Control flow
    // -----------------------------------------------------------------------

    pub(crate) fn leave(&mut self, n: usize, scope: ScopeId)
        ensures
            final(self)@ == infer_spec::leave(old(self)@, n as nat, scope),
    {
        self.scope = scope;
        if n <= self.env.len() {
            self.env.truncate(n);
            assert(self@.env =~= old(self)@.env.take(n as int));
        }
    }

    pub(crate) fn enter_loop(&mut self, valued: bool)
        ensures
            final(self)@ == infer_spec::enter_loop(old(self)@, valued),
    {
        self.breaks.push(LoopFrame { valued, left: None });
    }

    pub(crate) fn leave_loop(&mut self) -> (r: Option<Type>)
        ensures
            (r, final(self)@) == infer_spec::leave_loop(old(self)@),
    {
        if self.breaks.len() == 0 {
            return None;
        }
        match self.breaks.pop() {
            Some(b) => b.left,
            None => None,
        }
    }

    pub(crate) fn misplaced(&mut self, code: DiagCode, what: &str, span: Span)
        ensures
            final(self)@ == infer_spec::misplaced(old(self)@, code, what@, span),
    {
        let message = text3("`", what, "` has nothing to leave");
        self.report(span, code, message);
    }

    pub(crate) fn note_break(&mut self, given: bool, t: Type, at_value: Span, whole: Span)
        ensures
            final(self)@ == infer_spec::note_break(old(self)@, given, t, at_value, whole),
    {
        let n: usize = self.breaks.len();
        if n == 0 {
            self.misplaced(DiagCode::BreakOutsideLoop, "break", whole);
            return;
        }
        let valued = self.breaks[n - 1].valued;
        if given && !valued {
            let message = text("only a `loop` is left with a value");
            self.report(at_value, DiagCode::BreakValueOutsideLoop, message);
            return;
        }
        let last: Option<Type> = match &self.breaks[n - 1].left {
            Some(b) => Some(b.dup()),
            None => None,
        };
        let ghost before = self.breaks@;
        let j = match last {
            None => t,
            Some(b) => self.join(b, t, at_value),
        };
        assert(self.breaks@ == before);
        let frame = LoopFrame { valued, left: Some(j) };
        self.breaks.set(n - 1, frame);
        assert(self.breaks@ =~= before.drop_last().push(frame));
    }

    pub(crate) fn note_continue(&mut self, whole: Span)
        ensures
            final(self)@ == infer_spec::note_continue(old(self)@, whole),
    {
        if self.breaks.len() == 0 {
            self.misplaced(DiagCode::BreakOutsideLoop, "continue", whole);
        }
    }

    pub(crate) fn note_return(&mut self, t: &Type, at_value: Span, whole: Span)
        ensures
            final(self)@ == infer_spec::note_return(old(self)@, *t, at_value, whole),
    {
        let result: Option<Type> = match &self.result {
            Some(r) => Some(r.dup()),
            None => None,
        };
        match result {
            None => self.misplaced(DiagCode::ReturnOutsideFunction, "return", whole),
            Some(r) => self.expect(&r, t, at_value),
        }
    }
}

// ---------------------------------------------------------------------------
// Records
// ---------------------------------------------------------------------------

fn kind_word(kind: SymbolKind) -> (r: &'static str)
    ensures
        r@ == infer_spec::kind_word(kind),
{
    match kind {
        SymbolKind::Fn => "a function",
        SymbolKind::Param => "a parameter",
        SymbolKind::EnumVariant => "an enum variant",
        SymbolKind::Builtin => "a built-in name",
        _ => "a binding",
    }
}

/// Whether one of the first `n` fields has the name.
fn names_field(fs: &Vec<FieldInit>, n: usize, name: &String) -> (r: bool)
    requires
        n <= fs@.len(),
    ensures
        r == infer_spec::names_field(fs@.take(n as int), name@),
{
    let mut i: usize = 0;
    let mut found = false;
    while i < n
        invariant
            i <= n <= fs@.len(),
            found == infer_spec::names_field(fs@.take(i as int), name@),
        decreases n - i,
    {
        assert(fs@.take(i + 1).drop_last() =~= fs@.take(i as int));
        assert(fs@.take(i + 1).last() == fs@[i as int]);
        if let Some(m) = &fs[i].name {
            if m.text == *name {
                found = true;
            }
        }
        i += 1;
    }
    found
}

impl Inferer {
    pub(crate) fn declared_fields(&self, ty: &Type) -> (r: Vec<String>)
        ensures
            texts(r@) == infer_spec::declared_fields(self@.db, *ty),
    {
        let mut out: Vec<String> = Vec::new();
        if let Type::Record(d, _) = ty {
            if (d.0 as usize) < self.db.records.len() {
                let def = &self.db.records[d.0 as usize];
                assert(self@.db.records[d.0 as int] == def@);
                let ghost names = crate::typedb::field_names(def@);
                let mut i: usize = 0;
                while i < def.fields.len()
                    invariant
                        i <= def.fields@.len(),
                        names == crate::typedb::field_names(def@),
                        texts(out@) =~= names.take(i as int),
                    decreases def.fields@.len() - i,
                {
                    out.push(text(&def.fields[i].name));
                    assert(names[i as int] == def.fields@[i as int].name@);
                    assert(names.take(i + 1) =~= names.take(i as int).push(names[i as int]));
                    i += 1;
                }
                assert(names.take(i as int) =~= names);
                return out;
            }
        }
        assert(texts(out@) =~= Seq::empty());
        out
    }

    pub(crate) fn report_missing(&mut self, names: &Vec<String>, fs: &Vec<FieldInit>, span: Span)
        ensures
            final(self)@ == infer_spec::report_missing(old(self)@, texts(names@), fs@, span),
    {
        let ghost all = texts(names@);
        assert(fs@.take(fs@.len() as int) =~= fs@);
        let mut i: usize = 0;
        while i < names.len()
            invariant
                i <= names@.len(),
                all == texts(names@),
                fs@.take(fs@.len() as int) == fs@,
                self@ == infer_spec::report_missing(old(self)@, all.take(i as int), fs@, span),
            decreases names@.len() - i,
        {
            assert(all.take(i + 1).drop_last() =~= all.take(i as int));
            assert(all.take(i + 1).last() == names@[i as int]@);
            if !names_field(fs, fs.len(), &names[i]) {
                let message = text3("missing field `", &names[i], "`");
                self.report(span, DiagCode::MissingField, message);
            }
            i += 1;
        }
        assert(all.take(i as int) =~= all);
    }

    /// Checks the initializer at position `i` of a record literal.
    pub(crate) fn check_field(
        &mut self,
        fs: &Vec<FieldInit>,
        i: usize,
        name: &Ident,
        ty: &Type,
        got: &Type,
        at_value: Span,
    )
        requires
            i < fs@.len(),
        ensures
            final(self)@ == infer_spec::check_field(
                old(self)@,
                fs@.take(i as int),
                *name,
                *ty,
                *got,
                at_value,
            ),
    {
        if names_field(fs, i, &name.text) {
            let message = text3("field `", &name.text, "` is given twice");
            self.report(name.range, DiagCode::DuplicateField, message);
            return;
        }
        match self.field_of(ty, &name.text) {
            Some(t) => self.expect(&t, got, at_value),
            None => {
                let message = text3("no field `", &name.text, "`");
                self.report(name.range, DiagCode::UnknownField, message);
            },
        }
    }

    pub(crate) fn not_a_struct(&mut self, name: &Ident, what: &str)
        ensures
            final(self)@ == infer_spec::not_a_struct(old(self)@, *name, what@),
    {
        let message = text5("`", &name.text, "` is ", what, ", not a struct");
        self.report(name.range, DiagCode::NotAStruct, message);
    }

    pub(crate) fn head_type(&mut self, head: &Option<Ident>) -> (r: Option<Type>)
        ensures
            (r, final(self)@) == infer_spec::head_type(old(self)@, *head),
    {
        let Some(n) = head else {
            return None;
        };
        match self.type_named(&n.text) {
            Some(t) => {
                if let Type::Record(_, _) = &t {
                    return Some(t);
                }
                self.not_a_struct(n, "an enum type");
            },
            None => match self.in_scope(&n.text) {
                Some(id) => {
                    let what = match self.kind_of(id) {
                        Some(kind) => kind_word(kind),
                        None => "a binding",
                    };
                    self.not_a_struct(n, what);
                },
                None => self.unknown_name(n),
            },
        }
        None
    }
}

} // verus!
